use std::sync::{Arc, Mutex};
use std::task::{Wake, Waker};

use zincio::error::Error;
use zincio::signal::{
    place_of, put_waker, register_waker, register_waker_of, Console, ConsoleCtrlC, Framer,
    RegisterStep, Registry, Signal, SignalKind, CTRL_C_EVENT,
};

struct Counting(Mutex<u32>);

impl Wake for Counting {
    fn wake(self: Arc<Self>) {
        *self.0.lock().unwrap() += 1;
    }
}

fn task() -> (Arc<Counting>, Waker) {
    let counting = Arc::new(Counting(Mutex::new(0)));
    (counting.clone(), Waker::from(counting))
}

fn listen(registry: &mut Registry, kind: SignalKind) -> Signal {
    let counter = match registry.register_signal(kind) {
        RegisterStep::Shared(counter) => counter,
        RegisterStep::Install => registry.installed(kind, Ok(())).unwrap(),
    };
    Signal::new(kind, counter)
}

#[test]
fn kinds_have_the_numbers_of_the_system() {
    assert_eq!(SignalKind::interrupt().as_raw(), libc::SIGINT);
    assert_eq!(SignalKind::terminate().as_raw(), libc::SIGTERM);
    assert_eq!(SignalKind::hangup().as_raw(), libc::SIGHUP);
    assert_eq!(SignalKind::quit().as_raw(), libc::SIGQUIT);
    assert_eq!(SignalKind::user_defined1().as_raw(), libc::SIGUSR1);
    assert_eq!(SignalKind::user_defined2().as_raw(), libc::SIGUSR2);
    assert_eq!(SignalKind::child().as_raw(), libc::SIGCHLD);
    assert_eq!(SignalKind::alarm().as_raw(), libc::SIGALRM);
    assert_eq!(SignalKind::pipe().as_raw(), libc::SIGPIPE);
    assert_eq!(SignalKind::new(7).as_raw(), 7);
}

fn unblocks(kind: SignalKind) {
    let mut registry = Registry::new();
    let mut signal = listen(&mut registry, kind);
    assert_eq!(signal.kind(), kind);
    let (counting, waker) = task();
    assert!(!signal.poll_recv(&mut registry, waker.clone()));
    let mut framer = Framer::new();
    for raw in framer.feed(&kind.as_raw().to_ne_bytes().to_vec()) {
        for waker in registry.dispatch_signal(i32::from_ne_bytes(raw)) {
            waker.wake();
        }
    }
    assert_eq!(*counting.0.lock().unwrap(), 1);
    assert!(signal.poll_recv(&mut registry, waker.clone()));
    assert!(!signal.poll_recv(&mut registry, waker));
}

#[test]
fn signal_recv_unblocks() {
    unblocks(SignalKind::user_defined1());
}

#[test]
fn ctrl_c_unblocks_on_sigint() {
    unblocks(SignalKind::interrupt());
}

#[test]
fn all_listeners_of_a_signal_are_woken() {
    let mut registry = Registry::new();
    let kind = SignalKind::hangup();
    let mut first = listen(&mut registry, kind);
    let mut second = listen(&mut registry, kind);
    let mut other = listen(&mut registry, SignalKind::quit());
    let (a, waker_a) = task();
    let (b, waker_b) = task();
    let (c, waker_c) = task();
    assert!(!first.poll_recv(&mut registry, waker_a.clone()));
    assert!(!first.poll_recv(&mut registry, waker_a.clone()));
    assert!(!second.poll_recv(&mut registry, waker_b.clone()));
    assert!(!other.poll_recv(&mut registry, waker_c.clone()));
    for waker in registry.dispatch_signal(kind.as_raw()) {
        waker.wake();
    }
    assert!(registry.dispatch_signal(99).is_empty());
    assert_eq!(*a.0.lock().unwrap(), 1);
    assert_eq!(*b.0.lock().unwrap(), 1);
    assert_eq!(*c.0.lock().unwrap(), 0);
    assert!(first.poll_recv(&mut registry, waker_a));
    assert!(second.poll_recv(&mut registry, waker_b));
    assert!(!other.poll_recv(&mut registry, waker_c));
}

#[test]
fn the_last_listener_restores_the_handler() {
    let mut registry = Registry::new();
    let kind = SignalKind::alarm();
    assert!(!registry.unregister_signal(kind));
    assert_eq!(registry.register_signal(kind), RegisterStep::Install);
    assert_eq!(
        registry.installed(kind, Err(Error::Os(22))),
        Err(Error::Os(22))
    );
    assert_eq!(registry.register_signal(kind), RegisterStep::Install);
    assert_eq!(registry.installed(kind, Ok(())), Ok(0));
    registry.dispatch_signal(kind.as_raw());
    assert_eq!(registry.register_signal(kind), RegisterStep::Shared(1));
    assert!(!registry.unregister_signal(kind));
    assert!(registry.unregister_signal(kind));
    assert!(!registry.unregister_signal(kind));
}

#[test]
fn wakers_are_put_in_place() {
    let (a, waker_a) = task();
    let (b, waker_b) = task();
    let mut wakers = Vec::new();
    put_waker(&mut wakers, None, waker_a.clone());
    put_waker(&mut wakers, None, waker_a);
    put_waker(&mut wakers, Some(0), waker_b);
    assert_eq!(wakers.len(), 2);
    wakers.remove(0).wake();
    assert_eq!((*a.0.lock().unwrap(), *b.0.lock().unwrap()), (0, 1));
}

#[test]
fn numbers_come_out_of_the_pipe_whole() {
    let mut framer = Framer::new();
    assert!(framer.feed(&vec![1, 2, 3]).is_empty());
    assert_eq!(framer.feed(&vec![4, 5]), vec![[1, 2, 3, 4]]);
    assert_eq!(
        framer.feed(&vec![6, 7, 8, 9, 10, 11, 12]),
        vec![[5, 6, 7, 8], [9, 10, 11, 12]]
    );
}

#[test]
fn a_list_holds_one_waker_per_task() {
    assert_eq!(place_of(&vec![]), None);
    assert_eq!(place_of(&vec![false, false]), None);
    assert_eq!(place_of(&vec![false, true, true]), Some(1));

    let (a, waker_a) = task();
    let (b, waker_b) = task();
    let (c, waker_c) = task();
    let mut wakers = Vec::new();
    register_waker(&mut wakers, waker_a.clone());
    register_waker(&mut wakers, waker_b.clone());
    register_waker(&mut wakers, waker_c.clone());
    register_waker(&mut wakers, waker_b.clone());
    assert_eq!(wakers.len(), 3);
    assert!(wakers[0].will_wake(&waker_a));
    assert!(wakers[1].will_wake(&waker_b));
    assert!(wakers[2].will_wake(&waker_c));

    register_waker_of(&mut wakers, waker_c.clone(), &vec![true, false, true]);
    assert_eq!(wakers.len(), 3);
    assert!(wakers[0].will_wake(&waker_c));
    register_waker_of(&mut wakers, waker_a, &vec![false, false, false]);
    assert_eq!(wakers.len(), 4);
    for waker in wakers {
        waker.wake();
    }
    let woken = [&a, &b, &c].map(|task| *task.0.lock().unwrap());
    assert_eq!(woken, [1, 1, 2]);
}

#[test]
fn ctrl_c_unblocks_on_handler() {
    let mut console = Console::new();
    let mut first = ConsoleCtrlC::new(&console);
    let mut second = ConsoleCtrlC::new(&console);
    let (a, waker_a) = task();
    let (b, waker_b) = task();
    assert!(!first.poll_recv(&mut console, waker_a.clone()));
    assert!(!second.poll_recv(&mut console, waker_b.clone()));
    assert!(!first.poll_recv(&mut console, waker_a.clone()));
    let (handled, wakers) = console.handle(1);
    assert!(!handled && wakers.is_empty());
    let (handled, wakers) = console.handle(CTRL_C_EVENT);
    assert!(handled);
    assert_eq!(wakers.len(), 2);
    for waker in wakers {
        waker.wake();
    }
    assert_eq!((*a.0.lock().unwrap(), *b.0.lock().unwrap()), (1, 1));
    assert!(first.poll_recv(&mut console, waker_a.clone()));
    assert!(!first.poll_recv(&mut console, waker_a));
    assert!(second.poll_recv(&mut console, waker_b));
    assert!(!ConsoleCtrlC::new(&console).poll_recv(&mut console, Waker::noop().clone()));
}
