use waifu_http::Method;
use waifu_http::RouteError;
use waifu_http::Router;

#[test]
fn duplicate_registration_fails_and_keeps_the_first_handler() {
    let mut router: Router<u32> = Router::new();
    assert!(router.register("/foo", Method::Get, 1).is_ok());
    assert_eq!(
        router.register("/foo", Method::Get, 2),
        Err(RouteError::AlreadyRegistered)
    );
    assert_eq!(router.lookup("/foo", Method::Get), Some(&1));
}

#[test]
fn registering_without_a_slash_adds_one() {
    let mut router: Router<u32> = Router::new();
    assert!(router.register("foo", Method::Get, 7).is_ok());
    assert_eq!(router.lookup("/foo", Method::Get), Some(&7));
    assert_eq!(router.lookup("foo", Method::Get), None);
}

#[test]
fn slash_and_slashless_registrations_collide() {
    let mut router: Router<u32> = Router::new();
    assert!(router.register("bar", Method::Post, 1).is_ok());
    assert_eq!(
        router.register("/bar", Method::Post, 2),
        Err(RouteError::AlreadyRegistered)
    );
}

#[test]
fn same_path_different_methods_coexist() {
    let mut router: Router<u32> = Router::new();
    assert!(router.register("/x", Method::Get, 10).is_ok());
    assert!(router.register("/x", Method::Post, 20).is_ok());
    assert_eq!(router.lookup("/x", Method::Get), Some(&10));
    assert_eq!(router.lookup("/x", Method::Post), Some(&20));
}

#[test]
fn lookup_is_exact_and_misses_return_none() {
    let mut router: Router<u32> = Router::new();
    assert!(router.register("/a", Method::Get, 1).is_ok());
    assert_eq!(router.lookup("/a/", Method::Get), None);
    assert_eq!(router.lookup("/b", Method::Get), None);
    assert_eq!(router.lookup("/a", Method::Delete), None);
}

#[test]
fn empty_path_normalizes_to_the_root() {
    let mut router: Router<u32> = Router::new();
    assert!(router.register("", Method::Get, 5).is_ok());
    assert_eq!(router.lookup("/", Method::Get), Some(&5));
}
