//! Parsing of qualified object names.
//!
//! A qualified name has the textual form
//! `"<Class> <Outer_n>.….<Outer_1>.<Name>"`: a class, one space, then the
//! chain of enclosing outer objects from the outermost down to the object's
//! own name, separated by dots. The parsed form keeps the outers innermost
//! first, the order in which a live object's outer chain is walked.

use crate::split::{
    first_index_of, lemma_first_index_of, lemma_pieces_of_nonempty, rsplit_pieces, copy_range,
    scan_for, ReverseSplitIterator,
};
use vstd::prelude::*;

verus! {

#[derive(Debug, PartialEq, Eq, Structural)]
pub enum Error {
    /// No space separates the class from the outer chain.
    NoSpaceBetweenClassAndOuters,
    /// Nothing follows the class: the name has no object-name component.
    NoName,
}

/// A structured qualified name: class, object name, and the enclosing
/// outer names, innermost first.
pub struct FullName {
    pub class: Vec<u8>,
    pub name: Vec<u8>,
    pub outers: Vec<Vec<u8>>,
}

impl FullName {
    /// The outer names as byte strings, innermost first.
    pub open spec fn outers_view(&self) -> Seq<Seq<u8>> {
        self.outers.deep_view()
    }

    /// This value is exactly what parsing `s` yields: the class is the text
    /// before the first space, the name is the piece after the last dot of
    /// the remainder, and the outers are the remaining dot-separated
    /// pieces, right to left.
    pub open spec fn is_parse_of(&self, s: Seq<u8>) -> bool {
        let sp = first_index_of(s, 32);
        let rest = s.subrange(sp + 1, s.len() as int);
        let pieces = rsplit_pieces(rest, 46);
        &&& sp < s.len()
        &&& self.class@ == s.subrange(0, sp)
        &&& pieces.len() >= 1
        &&& self.name@ == pieces[0]
        &&& self.outers_view() == pieces.drop_first()
    }

    /// Parses a qualified name; rejects text without the class/name space
    /// and text whose object-name part is empty.
    pub fn parse(full_name: &Vec<u8>) -> (r: Result<FullName, Error>)
        ensures
            match r {
                Ok(f) => f.is_parse_of(full_name@),
                Err(e) => match e {
                    Error::NoSpaceBetweenClassAndOuters => first_index_of(full_name@, 32)
                        == full_name@.len(),
                    Error::NoName => first_index_of(full_name@, 32) == full_name@.len() - 1,
                },
            },
    {
        let n = full_name.len();
        let sp = scan_for(full_name, 0, n, 32);
        proof {
            lemma_first_index_of(full_name@, 32);
            assert(first_index_of(full_name@, 32) == sp);
        }
        if sp == n {
            return Err(Error::NoSpaceBetweenClassAndOuters);
        }
        let class = copy_range(full_name, 0, sp);
        let rest = copy_range(full_name, sp + 1, n);
        let ghost pieces = rsplit_pieces(rest@, 46);
        let mut it = ReverseSplitIterator::new(rest, 46);
        let name = match it.next() {
            None => {
                proof {
                    if full_name@.len() - sp - 1 > 0 {
                        lemma_pieces_of_nonempty(
                            full_name@.subrange(sp + 1, full_name@.len() as int),
                            46,
                        );
                    }
                }
                return Err(Error::NoName);
            },
            Some(p) => p,
        };
        let mut outers: Vec<Vec<u8>> = Vec::new();
        loop
            invariant
                it.wf(),
                pieces.len() >= 1,
                name@ == pieces[0],
                pieces =~~= seq![name@] + outers.deep_view() + it.remaining(),
            ensures
                it.remaining().len() == 0,
                pieces =~~= seq![name@] + outers.deep_view(),
            decreases it.remaining().len(),
        {
            match it.next() {
                None => {
                    proof {
                        assert(pieces =~~= seq![name@] + outers.deep_view());
                    }
                    break ;
                },
                Some(p) => {
                    let ghost before = outers.deep_view();
                    outers.push(p);
                    proof {
                        assert(outers.deep_view() =~~= before.push(p@));
                        assert(seq![name@] + before.push(p@) + it.remaining() =~~= seq![name@]
                            + before + (seq![p@] + it.remaining()));
                    }
                },
            }
        }
        let f = FullName { class, name, outers };
        proof {
            assert(f.outers_view() =~~= pieces.drop_first());
        }
        Ok(f)
    }
}

} // verus!
