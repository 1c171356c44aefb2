//! Setting up a listening socket.

use crate::error::Error;
use crate::op::sockaddr::{AF_INET6, WIN_AF_INET6};
use vstd::prelude::*;

verus! {

/// What setting up a listening socket calls for next.
#[derive(Debug, Clone, Copy, PartialEq, Eq)]
pub enum BindStep {
    /// Start the socket library, where the system has one to start.
    Startup,
    /// Create a stream socket.
    Socket,
    /// Let the address be used again.
    ReuseAddr,
    /// Let the socket serve both versions of the internet protocol.
    DualStack,
    /// Bind the socket to the address.
    Bind,
    /// Listen on the socket.
    Listen,
    /// The socket listens.
    Done,
    /// Give up, without a socket.
    Fail(Error),
    /// Close the socket and give up.
    CloseAndFail(Error),
}

/// The step after another one that has succeeded.
pub open spec fn next_step(step: BindStep, domain: i32) -> BindStep {
    match step {
        BindStep::Startup => BindStep::Socket,
        BindStep::Socket => BindStep::ReuseAddr,
        BindStep::ReuseAddr => if domain == AF_INET6 {
            BindStep::DualStack
        } else {
            BindStep::Bind
        },
        BindStep::DualStack => BindStep::Bind,
        BindStep::Bind => BindStep::Listen,
        BindStep::Listen => BindStep::Done,
        other => other,
    }
}

/// The step after another one that has succeeded on Windows, where an address is not used again.
pub open spec fn next_step_windows(step: BindStep, domain: i32) -> BindStep {
    match step {
        BindStep::Socket => if domain == WIN_AF_INET6 {
            BindStep::DualStack
        } else {
            BindStep::Bind
        },
        other => next_step(other, domain),
    }
}

/// What a failed step calls for: the end, after closing the socket if there is one.
pub open spec fn failed_step(step: BindStep, error: Error) -> BindStep {
    match step {
        BindStep::Startup | BindStep::Socket => BindStep::Fail(error),
        _ => BindStep::CloseAndFail(error),
    }
}

fn fail(step: BindStep, error: Error) -> (next: BindStep)
    ensures
        next == failed_step(step, error),
{
    match step {
        BindStep::Startup | BindStep::Socket => BindStep::Fail(error),
        _ => BindStep::CloseAndFail(error),
    }
}

/// The step after another one: the first failure ends the matter, and closes the socket if there
/// is one.
pub fn bind_one(step: BindStep, domain: i32, result: Result<(), Error>) -> (next: BindStep)
    ensures
        next == match result {
            Ok(()) => next_step(step, domain),
            Err(error) => failed_step(step, error),
        },
        result is Ok ==> {
            &&& step is Startup ==> next is Socket
            &&& step is Socket ==> next is ReuseAddr
            &&& step is ReuseAddr ==> next == if domain == AF_INET6 {
                BindStep::DualStack
            } else {
                BindStep::Bind
            }
            &&& step is DualStack ==> next is Bind
            &&& step is Bind ==> next is Listen
            &&& step is Listen ==> next is Done
            &&& next is Done ==> step is Listen || step is Done
            &&& step is Done || step is Fail || step is CloseAndFail ==> next == step
        },
        result matches Err(error) ==> next == if step is Startup || step is Socket {
            BindStep::Fail(error)
        } else {
            BindStep::CloseAndFail(error)
        },
{
    match result {
        Err(error) => fail(step, error),
        Ok(()) => match step {
            BindStep::Startup => BindStep::Socket,
            BindStep::Socket => BindStep::ReuseAddr,
            BindStep::ReuseAddr => if domain == AF_INET6 {
                BindStep::DualStack
            } else {
                BindStep::Bind
            },
            BindStep::DualStack => BindStep::Bind,
            BindStep::Bind => BindStep::Listen,
            BindStep::Listen => BindStep::Done,
            other => other,
        },
    }
}

/// The step after another one on Windows, which starts with the socket library.
pub fn bind_one_windows(step: BindStep, domain: i32, result: Result<(), Error>) -> (next: BindStep)
    ensures
        next == match result {
            Ok(()) => next_step_windows(step, domain),
            Err(error) => failed_step(step, error),
        },
        result is Ok ==> {
            &&& step is Startup ==> next is Socket
            &&& step is Socket ==> next == if domain == WIN_AF_INET6 {
                BindStep::DualStack
            } else {
                BindStep::Bind
            }
            &&& step is DualStack ==> next is Bind
            &&& step is Bind ==> next is Listen
            &&& step is Listen ==> next is Done
            &&& next is Done ==> step is Listen || step is Done
            &&& step is Done || step is Fail || step is CloseAndFail ==> next == step
        },
        result matches Err(error) ==> next == if step is Startup || step is Socket {
            BindStep::Fail(error)
        } else {
            BindStep::CloseAndFail(error)
        },
{
    match result {
        Err(error) => fail(step, error),
        Ok(()) => match step {
            BindStep::Socket => if domain == WIN_AF_INET6 {
                BindStep::DualStack
            } else {
                BindStep::Bind
            },
            other => bind_one(other, domain, result),
        },
    }
}

/// The steps of a run in which all succeed, from the first one on, up to the end or to so many.
pub open spec fn steps_of(step: BindStep, domain: i32, windows: bool, most: nat) -> Seq<BindStep>
    decreases most,
{
    if most == 0 || step is Done || step is Fail || step is CloseAndFail {
        seq![step]
    } else {
        seq![step] + steps_of(
            if windows {
                next_step_windows(step, domain)
            } else {
                next_step(step, domain)
            },
            domain,
            windows,
            (most - 1) as nat,
        )
    }
}

/// A listener that is set up has been through all of its steps: its address may be used again, it is
/// bound and then listens, once each and in that order, and it serves both versions of the protocol
/// just where it is of the newer one, from before it is bound on.
pub proof fn law_a_listener_goes_through_all_steps(domain: i32)
    ensures
        domain == AF_INET6 ==> steps_of(BindStep::Socket, domain, false, 9) == seq![
            BindStep::Socket,
            BindStep::ReuseAddr,
            BindStep::DualStack,
            BindStep::Bind,
            BindStep::Listen,
            BindStep::Done,
        ],
        domain != AF_INET6 ==> steps_of(BindStep::Socket, domain, false, 9) == seq![
            BindStep::Socket,
            BindStep::ReuseAddr,
            BindStep::Bind,
            BindStep::Listen,
            BindStep::Done,
        ],
{
    reveal_with_fuel(steps_of, 10);
    if domain == AF_INET6 {
        assert(steps_of(BindStep::Socket, domain, false, 9) =~= seq![
            BindStep::Socket,
            BindStep::ReuseAddr,
            BindStep::DualStack,
            BindStep::Bind,
            BindStep::Listen,
            BindStep::Done,
        ]);
    } else {
        assert(steps_of(BindStep::Socket, domain, false, 9) =~= seq![
            BindStep::Socket,
            BindStep::ReuseAddr,
            BindStep::Bind,
            BindStep::Listen,
            BindStep::Done,
        ]);
    }
}

/// A listener on Windows goes through all of its steps too, from the start of the socket library on.
pub proof fn law_a_windows_listener_goes_through_all_steps(domain: i32)
    ensures
        domain == WIN_AF_INET6 ==> steps_of(BindStep::Startup, domain, true, 9) == seq![
            BindStep::Startup,
            BindStep::Socket,
            BindStep::DualStack,
            BindStep::Bind,
            BindStep::Listen,
            BindStep::Done,
        ],
        domain != WIN_AF_INET6 ==> steps_of(BindStep::Startup, domain, true, 9) == seq![
            BindStep::Startup,
            BindStep::Socket,
            BindStep::Bind,
            BindStep::Listen,
            BindStep::Done,
        ],
{
    reveal_with_fuel(steps_of, 10);
    if domain == WIN_AF_INET6 {
        assert(steps_of(BindStep::Startup, domain, true, 9) =~= seq![
            BindStep::Startup,
            BindStep::Socket,
            BindStep::DualStack,
            BindStep::Bind,
            BindStep::Listen,
            BindStep::Done,
        ]);
    } else {
        assert(steps_of(BindStep::Startup, domain, true, 9) =~= seq![
            BindStep::Startup,
            BindStep::Socket,
            BindStep::Bind,
            BindStep::Listen,
            BindStep::Done,
        ]);
    }
}

/// A step that fails ends the matter with its error, and no socket that was created is left open.
pub proof fn law_a_failed_listener_leaves_no_socket(step: BindStep, error: Error)
    ensures
        failed_step(BindStep::Startup, error) == BindStep::Fail(error),
        failed_step(BindStep::Socket, error) == BindStep::Fail(error),
        step is ReuseAddr || step is DualStack || step is Bind || step is Listen ==> failed_step(
            step,
            error,
        ) == BindStep::CloseAndFail(error),
{
}

} // verus!
