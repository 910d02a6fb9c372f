use hooklib::full_name::{Error, FullName};

#[test]
fn parse_qualified_function_name() {
    let text = b"Function /Script/FSD.HitscanComponent.Server_RegisterHit".to_vec();
    let parsed = FullName::parse(&text).expect("parse");
    assert_eq!(parsed.class, b"Function".to_vec());
    assert_eq!(parsed.name, b"Server_RegisterHit".to_vec());
    assert_eq!(
        parsed.outers,
        vec![b"HitscanComponent".to_vec(), b"/Script/FSD".to_vec()]
    );
}

#[test]
fn parse_class_name_with_one_outer() {
    let text = b"Class /Script/FSD.AmmoDrivenWeapon".to_vec();
    let parsed = FullName::parse(&text).expect("parse");
    assert_eq!(parsed.class, b"Class".to_vec());
    assert_eq!(parsed.name, b"AmmoDrivenWeapon".to_vec());
    assert_eq!(parsed.outers, vec![b"/Script/FSD".to_vec()]);
}

#[test]
fn parse_name_without_outers() {
    let text = b"Package /Script/FSD".to_vec();
    let parsed = FullName::parse(&text).expect("parse");
    assert_eq!(parsed.class, b"Package".to_vec());
    assert_eq!(parsed.name, b"/Script/FSD".to_vec());
    assert!(parsed.outers.is_empty());
}

#[test]
fn parse_rejects_missing_space() {
    let text = b"Function/Script/FSD.Thing".to_vec();
    assert!(matches!(
        FullName::parse(&text),
        Err(Error::NoSpaceBetweenClassAndOuters)
    ));
}

#[test]
fn parse_rejects_empty_input() {
    assert!(matches!(
        FullName::parse(&Vec::new()),
        Err(Error::NoSpaceBetweenClassAndOuters)
    ));
}

#[test]
fn parse_rejects_missing_name() {
    let text = b"Function ".to_vec();
    assert!(matches!(FullName::parse(&text), Err(Error::NoName)));
}
