use hooklib::buf_writer::BufWriter;
use hooklib::buffer::Buffer;
use hooklib::game::{EPropertyFlags, FBoolProperty, FProperty};
use hooklib::hex::Hex;
use hooklib::list::{Error as ListError, List};
use hooklib::name::{FName, FNameEntry, FNameEntryHeader, FNameEntryId};
use hooklib::object::{EClassCastFlags, EClassFlags};
use hooklib::split::{ReverseSplitIterator, SplitIterator};
use hooklib::util::align;

#[test]
fn align_rounds_up() {
    assert_eq!(align(5, 4), 8);
    assert_eq!(align(8, 4), 8);
    assert_eq!(align(0, 4), 0);
    assert_eq!(align(0x2345, 0x1000), 0x3000);
    assert_eq!(align(7, 1), 7);
}

#[test]
fn hex_renders_lowercase_digits() {
    assert_eq!(Hex(0xABCu64).text(), b"0xabc".to_vec());
    assert_eq!(Hex(0u8).text(), b"0x0".to_vec());
    assert_eq!(Hex(255u8).text(), b"0xff".to_vec());
    assert_eq!(Hex(0x7FF6_1234_5678usize).text(), b"0x7ff612345678".to_vec());
}

#[test]
fn list_pushes_until_capacity() {
    let mut list: List<u32, 2> = List::new();
    assert!(list.is_empty());
    assert_eq!(list.capacity(), 2);
    assert_eq!(list.push(10), Ok(()));
    assert_eq!(list.push(20), Ok(()));
    assert_eq!(list.push(30), Err(ListError::CapacityReached));
    assert_eq!(list.len(), 2);
    assert_eq!(list.iter(), &vec![10, 20]);
}

#[test]
fn list_get_checks_bounds() {
    let mut list: List<u8, 4> = List::new();
    list.push(7).unwrap();
    assert_eq!(list.get(0), Ok(&7));
    assert_eq!(list.get(1), Err(ListError::BadGetIndex(1, 1)));
}

#[test]
fn list_swap_remove_moves_last_into_hole() {
    let mut list: List<u8, 4> = List::new();
    list.push(1).unwrap();
    list.push(2).unwrap();
    list.push(3).unwrap();
    assert_eq!(list.swap_remove(0), Ok(1));
    assert_eq!(list.iter(), &vec![3, 2]);
    assert_eq!(list.swap_remove(5), Err(ListError::BadSwapRemoveIndex(5, 2)));
}

#[test]
fn list_write_bytes_is_all_or_nothing() {
    let mut list: List<u8, 4> = List::new();
    assert_eq!(list.write_bytes(&vec![1, 2, 3]), Ok(()));
    assert_eq!(list.write_bytes(&vec![4, 5]), Err(ListError::CapacityReached));
    assert_eq!(list.iter(), &vec![1, 2, 3]);
}

#[test]
fn buffer_refuses_overflow() {
    let mut buffer: Buffer<4> = Buffer::new();
    assert!(buffer.write_bytes(&vec![1, 2, 3]));
    assert!(!buffer.write_bytes(&vec![4, 5]));
    assert_eq!(buffer.as_bytes(), &vec![1, 2, 3]);
    assert!(buffer.write_bytes(&vec![4]));
    assert_eq!(buffer.len(), 4);
}

#[test]
fn buf_writer_carries_bytes_across_flushes() {
    // more than one buffer's worth forces intermediate flushes
    let payload: Vec<u8> = (0..20000u32).map(|i| (i % 251) as u8).collect();
    let mut writer = BufWriter::new();
    writer.write_bytes(&payload);
    assert_eq!(writer.into_writer(), payload);
}

#[test]
fn buf_writer_appends_to_existing_sink() {
    let mut writer = BufWriter::with_writer(vec![1, 2]);
    writer.write_bytes(&vec![3, 4]);
    writer.flush();
    assert_eq!(writer.into_writer(), vec![1, 2, 3, 4]);
}

#[test]
fn split_iterator_yields_pieces_left_to_right() {
    let mut it = SplitIterator::new(b"a,b,,c".to_vec(), b',');
    assert_eq!(it.next(), Some(b"a".to_vec()));
    assert_eq!(it.next(), Some(b"b".to_vec()));
    assert_eq!(it.next(), Some(b"".to_vec()));
    assert_eq!(it.next(), Some(b"c".to_vec()));
    assert_eq!(it.next(), None);
}

#[test]
fn split_iterator_drops_trailing_empty_piece() {
    let mut it = SplitIterator::new(b"a,".to_vec(), b',');
    assert_eq!(it.next(), Some(b"a".to_vec()));
    assert_eq!(it.next(), None);
}

#[test]
fn reverse_split_iterator_yields_pieces_right_to_left() {
    let mut it = ReverseSplitIterator::new(b"x.y.z".to_vec(), b'.');
    assert_eq!(it.next(), Some(b"z".to_vec()));
    assert_eq!(it.next(), Some(b"y".to_vec()));
    assert_eq!(it.next(), Some(b"x".to_vec()));
    assert_eq!(it.next(), None);
}

#[test]
fn reverse_split_iterator_empty_source() {
    let mut it = ReverseSplitIterator::new(Vec::new(), b'.');
    assert_eq!(it.next(), None);
}

#[test]
fn name_entry_id_packs_block_and_offset() {
    let id = FNameEntryId::from(2, 0x34);
    assert_eq!(id.value(), 0x20034);
    assert_eq!(id.block(), 2);
    assert_eq!(id.offset(), 0x34);
}

#[test]
fn name_carries_instance_number() {
    let name = FName::new(FNameEntryId::from(0, 7), 3);
    assert_eq!(name.number(), 3);
}

#[test]
fn name_entry_sizes() {
    // five narrow characters: header plus text, rounded to the stride
    let narrow = FNameEntry {
        header: FNameEntryHeader { bitfield: 5 << 6 },
        ansi_name: b"hello".to_vec(),
    };
    assert!(!narrow.is_empty());
    assert_eq!(narrow.len(), 5);
    assert_eq!(narrow.get_size(), 8);
    assert_eq!(narrow.text(), &b"hello".to_vec());

    let wide = FNameEntry {
        header: FNameEntryHeader { bitfield: (5 << 6) | 1 },
        ansi_name: Vec::new(),
    };
    assert_eq!(wide.get_size(), 12);

    let empty = FNameEntry {
        header: FNameEntryHeader { bitfield: 0 },
        ansi_name: Vec::new(),
    };
    assert!(empty.is_empty());
}

#[test]
fn class_flag_queries() {
    let cast = EClassCastFlags(EClassCastFlags::CASTCLASS_UClass | EClassCastFlags::CASTCLASS_UStruct);
    assert!(cast.any(EClassCastFlags(EClassCastFlags::CASTCLASS_UClass)));
    assert!(!cast.any(EClassCastFlags(EClassCastFlags::CASTCLASS_UFunction)));

    let class = EClassFlags(EClassFlags::CLASS_CompiledFromBlueprint);
    assert!(class.any(EClassFlags(EClassFlags::CLASS_CompiledFromBlueprint)));
    assert!(!EClassFlags(0).any(class));
}

#[test]
fn property_flag_containment() {
    let flags = EPropertyFlags(EPropertyFlags::CPF_Parm | EPropertyFlags::CPF_OutParm);
    assert!(flags.contains(EPropertyFlags(EPropertyFlags::CPF_Parm)));
    assert!(!flags.contains(EPropertyFlags(EPropertyFlags::CPF_ReturnParm)));
    assert!(flags.contains(EPropertyFlags(EPropertyFlags::CPF_None)));
}

#[test]
fn bool_property_bitfield_detection() {
    let base = FProperty {
        array_dim: 1,
        element_size: 1,
        property_flags: EPropertyFlags(0),
        offset: 0,
    };
    let full_byte = FBoolProperty {
        base,
        field_size: 1,
        byte_offset: 0,
        byte_mask: 255,
        field_mask: 255,
    };
    assert!(!full_byte.is_bitfield());
    let one_bit = FBoolProperty {
        base: FProperty {
            array_dim: 1,
            element_size: 1,
            property_flags: EPropertyFlags(0),
            offset: 0,
        },
        field_size: 1,
        byte_offset: 0,
        byte_mask: 4,
        field_mask: 4,
    };
    assert!(one_bit.is_bitfield());
}
