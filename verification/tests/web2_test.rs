use sha2::Digest;

use fadfada::control::Controller;
use fadfada::endpoint::Endpoint;
use fadfada::resolver::{Resolver, ResolverItem};
use fadfada::source::Source;
use fadfada::timing::Scheduler;
use fadfada::validator::{NoopValidator, Validator, ValidatorKind};
use fadfada::web2::{engine, Sha256ImmutableResolverItem, Sha256ImmutableValidator};

#[test]
fn test_web2_create_graph() {
    // set up first source with endpoints and schedule
    let endpoint_a_one: Endpoint = Endpoint::new("https://foo.com:443", None).unwrap();
    let endpoint_a_two: Endpoint = Endpoint::new("https://bar.com:443/baz", None).unwrap();
    let sched_a: Scheduler = Scheduler { delay: 20, timeout: 2000 };
    let source_a: Source = Source {
        trusted_keys: vec![],
        endpoints: vec![endpoint_a_one, endpoint_a_two],
        timing: Some(sched_a),
        engine: "foo".to_string(),
    };

    // set up second source with endpoints and schedule
    let endpoint_b_one: Endpoint = Endpoint::new("http://xyzzy.com", None).unwrap();
    let sched_b: Scheduler = Scheduler { delay: 10, timeout: 2000 };
    let source_b: Source = Source {
        trusted_keys: vec![],
        endpoints: vec![endpoint_b_one],
        timing: Some(sched_b),
        engine: "bar".to_string(),
    };

    // generate control graph from endpoints and schedules
    let sched_ctrl: Scheduler = Scheduler { delay: 6, timeout: 2000 };

    let mut c: Controller = Controller::new(sched_ctrl);
    c.add(source_a);
    c.add(source_b);

    let key_one: Vec<u8> = vec![1, 2, 3];
    let key_two: Vec<u8> = vec![4, 5, 6];
    let mut resolver: Resolver<Sha256ImmutableResolverItem> = Resolver::new();

    let ri_one = Sha256ImmutableResolverItem::new(&key_one, None);
    let mut _r = resolver.add("foo".to_string(), ri_one);

    let ri_two = Sha256ImmutableResolverItem::new(&key_two, None);
    _r = resolver.add("bar".to_string(), ri_two);

    let mut g = c.generate(&resolver).unwrap();

    let keys = g.keys();
    for i in 0..keys.len() {
        println!(">> {:?}", g.get(i));
    }
}

#[test]
fn test_engine_name() {
    assert_eq!(engine(), "web2");
}

#[test]
fn test_sha256_item_pointer() {
    let item = Sha256ImmutableResolverItem::new(&vec![0xde, 0xad], None);
    assert_eq!(item.pointer(), "dead");
    assert_eq!(item.digest(), &vec![0xde, 0xad]);
    assert_eq!(item.signature().unwrap(), Vec::<u8>::new());
}

#[test]
fn test_sha256_validator() {
    let content: Vec<u8> = b"hello".to_vec();
    let digest: Vec<u8> = sha2::Sha256::digest(&content).to_vec();
    let v = Sha256ImmutableValidator {};
    assert!(v.verify(&digest, Some(&content), None));

    let mut wrong = digest.clone();
    wrong[0] ^= 1;
    assert!(!v.verify(&wrong, Some(&content), None));

    // absent content is not disqualifying
    assert!(v.verify(&wrong, None, None));
}

#[test]
fn test_noop_validator() {
    let v = NoopValidator {};
    assert!(v.verify(&vec![1, 2, 3], None, None));
    assert!(v.verify(&vec![1, 2, 3], Some(&vec![9, 9]), Some(&vec![8])));
}

#[test]
fn test_validator_kind_dispatch() {
    let content: Vec<u8> = b"payload".to_vec();
    let digest: Vec<u8> = sha2::Sha256::digest(&content).to_vec();
    assert!(ValidatorKind::Sha256Immutable.verify(&digest, Some(&content), None));
    assert!(!ValidatorKind::Sha256Immutable.verify(&vec![0], Some(&content), None));
    assert!(ValidatorKind::Noop.verify(&vec![0], Some(&content), None));
}
