//! The one way a pass reaches `cmux` and `bd`: a [`HostLink`] holds the
//! host and the issue loader privately, and runs each call through a method
//! that logs it. A pass that is handed only the link can make no call that
//! the log does not show.

use vstd::prelude::*;

use crate::bd::types::Bead;
use crate::bd::BridgeError;
use crate::sync::CmuxHost;
use crate::text::views;

verus! {

/// One `cmux` call: its argv, and the reply when it reached the host. A dry
/// run only prints its writes: their `reply` is `None`.
#[derive(Debug, Clone)]
pub struct HostCall {
    pub args: Vec<String>,
    pub reply: Option<Result<String, String>>,
}

/// A [`HostCall`], strings taken as character sequences.
pub struct CallModel {
    pub args: Seq<Seq<char>>,
    pub reply: Option<Result<Seq<char>, Seq<char>>>,
}

/// A reply, by its characters.
pub open spec fn reply_view(r: Result<String, String>) -> Result<Seq<char>, Seq<char>> {
    match r {
        Ok(s) => Ok(s@),
        Err(e) => Err(e@),
    }
}

impl View for HostCall {
    type V = CallModel;

    open spec fn view(&self) -> CallModel {
        CallModel {
            args: views(self.args@),
            reply: match self.reply {
                Some(r) => Some(reply_view(r)),
                None => None,
            },
        }
    }
}

/// The host `cmux` and the `bd` loader of one pass, with the log of every
/// `cmux` call made or printed and the position of each `bd` load in it.
pub struct HostLink<'a, H, L> {
    host: &'a H,
    loader: Option<L>,
    calls: Vec<HostCall>,
    loads: Vec<usize>,
}

impl<'a, H: CmuxHost, L: FnOnce() -> Result<Vec<Bead>, BridgeError>> HostLink<'a, H, L> {
    /// The calls so far, in order.
    pub closed spec fn calls_of(&self) -> Seq<HostCall> {
        self.calls@
    }

    /// For each `bd` load so far, how many calls preceded it.
    pub closed spec fn loads_of(&self) -> Seq<usize> {
        self.loads@
    }

    /// The loader the link was made with.
    pub closed spec fn loader(&self) -> L {
        self.loader->0
    }

    /// Whether the loader has not run yet.
    pub closed spec fn can_load(&self) -> bool {
        self.loader is Some
    }

    /// A link to `host` that loads issues with `loader`, with nothing logged.
    pub fn new(host: &'a H, loader: L) -> (r: Self)
        ensures
            r.calls_of().len() == 0,
            r.loads_of().len() == 0,
            r.can_load(),
            r.loader() == loader,
    {
        HostLink { host, loader: Some(loader), calls: Vec::new(), loads: Vec::new() }
    }

    /// The calls so far, in order.
    pub fn calls(&self) -> (r: &Vec<HostCall>)
        ensures
            r@ == self.calls_of(),
    {
        &self.calls
    }

    /// For each `bd` load so far, how many calls preceded it.
    pub fn loads(&self) -> (r: &Vec<usize>)
        ensures
            r@ == self.loads_of(),
    {
        &self.loads
    }

    /// Sends `args` to the host and logs the call with its reply.
    pub(crate) fn send(&mut self, args: Vec<String>) -> (r: Result<String, String>)
        ensures
            final(self).calls_of().len() == old(self).calls_of().len() + 1,
            final(self).calls_of().subrange(0, old(self).calls_of().len() as int) == old(self).calls_of(),
            final(self).calls_of().last()@ == (CallModel { args: views(args@), reply: Some(reply_view(r)) }),
            final(self).loads_of() == old(self).loads_of(),
            final(self).can_load() == old(self).can_load(),
            final(self).loader() == old(self).loader(),
    {
        let reply = self.host.run(args.as_slice());
        let kept = match &reply {
            Ok(s) => Ok(s.clone()),
            Err(e) => Err(e.clone()),
        };
        self.calls.push(HostCall { args, reply: Some(kept) });
        assert(self.calls@.subrange(0, self.calls@.len() - 1) =~= old(self).calls@);
        reply
    }

    /// Logs `args` as printed: the host does not see it.
    pub(crate) fn print_only(&mut self, args: Vec<String>)
        ensures
            final(self).calls_of().len() == old(self).calls_of().len() + 1,
            final(self).calls_of().subrange(0, old(self).calls_of().len() as int) == old(self).calls_of(),
            final(self).calls_of().last()@ == (CallModel { args: views(args@), reply: None }),
            final(self).loads_of() == old(self).loads_of(),
            final(self).can_load() == old(self).can_load(),
            final(self).loader() == old(self).loader(),
    {
        self.calls.push(HostCall { args, reply: None });
        assert(self.calls@.subrange(0, self.calls@.len() - 1) =~= old(self).calls@);
    }

    /// Runs the loader, once, and logs when it ran.
    pub(crate) fn load(&mut self) -> (r: Result<Vec<Bead>, BridgeError>)
        requires
            old(self).can_load(),
            call_requires(old(self).loader(), ()),
        ensures
            call_ensures(old(self).loader(), (), r),
            final(self).calls_of() == old(self).calls_of(),
            final(self).loads_of() == old(self).loads_of().push(old(self).calls_of().len() as usize),
            !final(self).can_load(),
    {
        let f = self.loader.take();
        match f {
            Some(f) => {
                let r = f();
                self.loads.push(self.calls.len());
                r
            },
            None => {
                assert(false);
                Ok(Vec::new())
            },
        }
    }
}

} // verus!
