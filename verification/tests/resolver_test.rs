use fadfada::resolver::{ErrorDetail, Resolver, ResolverItem, SimpleResolverItem};
use fadfada::source;
use fadfada::web2::Sha256ImmutableResolverItem;

#[test]
fn test_resolver_create() {
    let key_one: Vec<u8> = vec![1, 2, 3];
    let key_two: Vec<u8> = vec![4, 5, 6];
    let mut r: Resolver<Sha256ImmutableResolverItem> = Resolver::new();
    let ri_one = Sha256ImmutableResolverItem::new(&key_one, None);
    let ri_two = Sha256ImmutableResolverItem::new(&key_two, None);
    let engine_string_one: source::Engine = "one".to_string();
    let engine_string_two: source::Engine = "two".to_string();
    let ri_orig_one = ri_one.digest().clone();
    let ri_orig_two = ri_two.digest().clone();

    r.add(engine_string_one.clone(), ri_one).unwrap();
    r.add(engine_string_two.clone(), ri_two).unwrap();

    let mut ri_returned = r.pointer_for(&engine_string_one).unwrap();
    assert_eq!(hex::encode(ri_orig_one), ri_returned);

    ri_returned = r.pointer_for(&engine_string_two).unwrap();
    assert_eq!(hex::encode(ri_orig_two), ri_returned);
}

#[test]
fn test_resolver_uniqueness() {
    let mut r: Resolver<SimpleResolverItem> = Resolver::new();
    let engine: source::Engine = "foo".to_string();
    let item = SimpleResolverItem::new("deadbeef".to_string()).unwrap();
    let item2 = SimpleResolverItem::new("beeffeed".to_string()).unwrap();

    r.add(engine.clone(), item).unwrap();
    let second = r.add(engine.clone(), item2);
    match second {
        Ok(_) => panic!("second registration for the same engine accepted"),
        Err(e) => assert!(matches!(e.detail, ErrorDetail::EngineExistsError)),
    }
    assert_eq!(r.pointer_for(&engine).unwrap(), "deadbeef");
}

#[test]
fn test_resolver_unknown_engine() {
    let r: Resolver<SimpleResolverItem> = Resolver::new();
    let engine: source::Engine = "ghost".to_string();
    match r.pointer_for(&engine) {
        Ok(_) => panic!("lookup for unregistered engine succeeded"),
        Err(e) => match e.detail {
            ErrorDetail::UnknownEngineError(name) => assert_eq!(name, "ghost"),
            _ => panic!("wrong error detail"),
        },
    }
}

#[test]
fn test_simple_resolver_item() {
    let item = SimpleResolverItem::new("deadbeef".to_string()).unwrap();
    assert_eq!(item.pointer(), "deadbeef");
    assert_eq!(item.digest(), &vec![0xde, 0xad, 0xbe, 0xef]);
    assert!(item.signature().is_err());
}

#[test]
fn test_simple_resolver_item_rejects_bad_hex() {
    assert!(SimpleResolverItem::new("zz!".to_string()).is_none());
    assert!(SimpleResolverItem::new("abc".to_string()).is_none());
    assert!(SimpleResolverItem::new("DEADbeef".to_string()).is_some());
}
