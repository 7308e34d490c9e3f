use rustedrazors::{atomic_spsc, blocking_spsc, mutex_spsc, ticket_spsc};
use std::rc::Rc;

// Resolves for a type in one way only if the type is not `Sync`: for a
// `Sync` type both impls apply and the call below would not compile.
trait OneWayUnlessSync<Marker> {
    fn holds() -> bool {
        true
    }
}

impl<H: ?Sized> OneWayUnlessSync<()> for H {}

impl<H: ?Sized + Sync> OneWayUnlessSync<u8> for H {}

fn is_send<H: Send>() -> bool {
    true
}

#[test]
fn test_handles_are_for_one_thread_at_a_time() {
    assert!(<atomic_spsc::ReadHandle<i32> as OneWayUnlessSync<_>>::holds());
    assert!(<atomic_spsc::WriteHandle<i32> as OneWayUnlessSync<_>>::holds());
    assert!(<blocking_spsc::ReadHandle<i32> as OneWayUnlessSync<_>>::holds());
    assert!(<blocking_spsc::WriteHandle<i32> as OneWayUnlessSync<_>>::holds());
    assert!(<mutex_spsc::ReadHandle<i32> as OneWayUnlessSync<_>>::holds());
    assert!(<mutex_spsc::WriteHandle<i32> as OneWayUnlessSync<_>>::holds());
    assert!(<ticket_spsc::ReadHandle<i32> as OneWayUnlessSync<_>>::holds());
    assert!(<ticket_spsc::WriteHandle<i32> as OneWayUnlessSync<_>>::holds());
}

#[test]
fn test_handles_of_owned_values_are_send() {
    assert!(is_send::<atomic_spsc::ReadHandle<Vec<u8>>>());
    assert!(is_send::<atomic_spsc::WriteHandle<Vec<u8>>>());
    assert!(is_send::<blocking_spsc::ReadHandle<String>>());
    assert!(is_send::<blocking_spsc::WriteHandle<String>>());
    assert!(is_send::<mutex_spsc::ReadHandle<String>>());
    assert!(is_send::<mutex_spsc::WriteHandle<String>>());
    assert!(is_send::<ticket_spsc::ReadHandle<String>>());
    assert!(is_send::<ticket_spsc::WriteHandle<String>>());
}

// Resolves for a type in one way only if the type is not `Send`.
trait OneWayUnlessSend<Marker> {
    fn stays() -> bool {
        true
    }
}

impl<H: ?Sized> OneWayUnlessSend<()> for H {}

impl<H: ?Sized + Send> OneWayUnlessSend<u8> for H {}

#[test]
fn test_handles_of_thread_bound_values_stay_put() {
    assert!(<atomic_spsc::ReadHandle<Rc<u8>> as OneWayUnlessSend<_>>::stays());
    assert!(<atomic_spsc::WriteHandle<Rc<u8>> as OneWayUnlessSend<_>>::stays());
    assert!(<blocking_spsc::ReadHandle<Rc<u8>> as OneWayUnlessSend<_>>::stays());
    assert!(<blocking_spsc::WriteHandle<Rc<u8>> as OneWayUnlessSend<_>>::stays());
    assert!(<mutex_spsc::ReadHandle<Rc<u8>> as OneWayUnlessSend<_>>::stays());
    assert!(<mutex_spsc::WriteHandle<Rc<u8>> as OneWayUnlessSend<_>>::stays());
    assert!(<ticket_spsc::ReadHandle<Rc<u8>> as OneWayUnlessSend<_>>::stays());
    assert!(<ticket_spsc::WriteHandle<Rc<u8>> as OneWayUnlessSend<_>>::stays());
}
