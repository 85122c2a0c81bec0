use fadfada::control::Controller;
use fadfada::endpoint::Endpoint;
use fadfada::resolver::{ErrorDetail, Resolver, SimpleResolverItem};
use fadfada::source::Source;
use fadfada::timing::Scheduler;
use fadfada::web2::Sha256ImmutableResolverItem;

fn source_with_endpoints(engine: &str, delay: u32, urls: &[&str]) -> Source {
    let mut endpoints: Vec<Endpoint> = vec![];
    for u in urls {
        endpoints.push(Endpoint::new(u, None).unwrap());
    }
    Source {
        trusted_keys: vec![],
        endpoints,
        timing: Some(Scheduler { delay, timeout: 2000 }),
        engine: engine.to_string(),
    }
}

#[test]
fn test_offset_sequence() {
    let mut c = Controller::new(Scheduler { delay: 7, timeout: 1000 });
    c.add(Source::new("a".to_string()));
    c.add(Source::new("b".to_string()));
    c.add(Source::new("c".to_string()));
    assert_eq!(c.offsets, vec![0, 7, 14]);

    let mut z = Controller::new(Scheduler { delay: 0, timeout: 1000 });
    z.add(Source::new("a".to_string()));
    z.add(Source::new("b".to_string()));
    assert_eq!(z.offsets, vec![0, 0]);
}

#[test]
fn test_intra_source_spacing() {
    let mut c = Controller::new(Scheduler { delay: 0, timeout: 1000 });
    c.add(source_with_endpoints(
        "foo",
        20,
        &["https://one.example.com", "https://two.example.com", "https://three.example.com"],
    ));
    let mut resolver: Resolver<SimpleResolverItem> = Resolver::new();
    resolver.add("foo".to_string(), SimpleResolverItem::new("aa".to_string()).unwrap()).unwrap();

    let mut g = c.generate(&resolver).unwrap();
    assert_eq!(g.keys(), vec![0, 20, 40]);
}

#[test]
fn test_timing_less_source() {
    let mut c = Controller::new(Scheduler { delay: 6, timeout: 1000 });
    let mut s = Source::new("foo".to_string());
    s.endpoints.push(Endpoint::new("https://one.example.com", None).unwrap());
    s.endpoints.push(Endpoint::new("https://two.example.com", None).unwrap());
    c.add(s);
    let resolver: Resolver<SimpleResolverItem> = Resolver::new();

    let g = c.generate(&resolver).unwrap();
    assert_eq!(g.len(), 0);
}

#[test]
fn test_end_to_end() {
    let mut c = Controller::new(Scheduler { delay: 6, timeout: 2000 });
    c.add(source_with_endpoints("foo", 20, &["https://foo.com:443", "https://bar.com:443/baz"]));
    c.add(source_with_endpoints("bar", 10, &["http://xyzzy.com"]));

    let mut resolver: Resolver<Sha256ImmutableResolverItem> = Resolver::new();
    resolver.add("foo".to_string(), Sha256ImmutableResolverItem::new(&vec![1, 2, 3], None)).unwrap();
    resolver.add("bar".to_string(), Sha256ImmutableResolverItem::new(&vec![4, 5, 6], None)).unwrap();

    let mut g = c.generate(&resolver).unwrap();
    assert_eq!(g.len(), 3);
    assert_eq!(g.keys(), vec![0, 6, 20]);
    assert_eq!(g.get(0), (0, "https://foo.com/010203".to_string(), "foo".to_string()));
    assert_eq!(g.get(1), (6, "http://xyzzy.com/040506".to_string(), "bar".to_string()));
    assert_eq!(g.get(2), (20, "https://bar.com/baz/010203".to_string(), "foo".to_string()));
}

#[test]
fn test_generate_unknown_engine() {
    let mut c = Controller::new(Scheduler { delay: 6, timeout: 2000 });
    c.add(source_with_endpoints("ghost", 10, &["https://one.example.com"]));
    let resolver: Resolver<SimpleResolverItem> = Resolver::new();

    match c.generate(&resolver) {
        Ok(_) => panic!("generation with unregistered engine succeeded"),
        Err(e) => match e.detail {
            ErrorDetail::UnknownEngineError(name) => assert_eq!(name, "ghost"),
            _ => panic!("wrong error detail"),
        },
    }
}

#[test]
fn test_generate_is_repeatable() {
    let mut c = Controller::new(Scheduler { delay: 6, timeout: 2000 });
    c.add(source_with_endpoints("foo", 20, &["https://foo.com:443"]));

    let mut resolver: Resolver<SimpleResolverItem> = Resolver::new();
    resolver.add("foo".to_string(), SimpleResolverItem::new("0a0b".to_string()).unwrap()).unwrap();

    let mut g1 = c.generate(&resolver).unwrap();
    c.add(source_with_endpoints("foo", 10, &["http://xyzzy.com"]));
    let mut g2 = c.generate(&resolver).unwrap();
    assert_eq!(g1.keys(), vec![0]);
    assert_eq!(g2.keys(), vec![0, 6]);
}
