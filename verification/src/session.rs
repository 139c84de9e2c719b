//! The instrumentation session: one engine instance's host-side state.
//!
//! A session owns the marshaled engine-startup arguments, the timeout that
//! bounds both phases of every run, and the record of every coverage
//! location it has already reported. A `Session` value exists only after
//! [`Session::new`] has validated and marshaled the startup arguments, so
//! no run call can be produced for an engine that was never given its
//! configuration: the initialized state is established by construction, not
//! by a runtime flag.
//!
//! The engine itself is a foreign capability with process-lifecycle side
//! effects; the caller that drives it performs each foreign call and hands
//! its results back. The session produces the exact call data — via
//! [`Session::startup_call`] and [`Session::run_call`] — and absorbs the
//! results: a raw result code is classified by
//! [`crate::outcome::classify_run_code`], and an extracted coverage list is
//! de-duplicated by [`Session::collect_coverage`].

use vstd::prelude::*;
use crate::coverage::{collect_after, collect_delta, dense_slot, render_dense};
use crate::errors::SessionError;
use crate::marshal::{arg_bytes, args_ok, marshal, CArgs, MAX_ARG_COUNT};

verus! {

/// Everything one engine run needs at the foreign boundary: the marshaled
/// target arguments and the two timeout bounds, plus whether the run should
/// perform deeper fault triage on a crash.
pub struct RunCall {
    args: CArgs,
    init_timeout_ms: u32,
    run_timeout_ms: u32,
    crash_analysis: bool,
}

impl RunCall {
    /// The marshaled arguments' layout invariant holds.
    pub closed spec fn wf(&self) -> bool {
        self.args.wf()
    }

    /// The byte encodings of the target argument tokens.
    pub closed spec fn args_view(&self) -> Seq<Seq<u8>> {
        self.args@
    }

    /// The bound on the engine's attach phase, in milliseconds.
    pub closed spec fn init_timeout_spec(&self) -> u32 {
        self.init_timeout_ms
    }

    /// The bound on instrumented execution, in milliseconds.
    pub closed spec fn run_timeout_spec(&self) -> u32 {
        self.run_timeout_ms
    }

    /// Whether the run performs deeper fault triage on a crash.
    pub closed spec fn crash_analysis_spec(&self) -> bool {
        self.crash_analysis
    }

    /// The marshaled target arguments for the foreign call.
    pub fn args(&self) -> (a: &CArgs)
        requires
            self.wf(),
        ensures
            a.wf(),
            a@ == self.args_view(),
    {
        &self.args
    }

    /// The attach-phase bound, in milliseconds.
    pub fn init_timeout_ms(&self) -> (t: u32)
        ensures
            t == self.init_timeout_spec(),
    {
        self.init_timeout_ms
    }

    /// The execution bound, in milliseconds.
    pub fn run_timeout_ms(&self) -> (t: u32)
        ensures
            t == self.run_timeout_spec(),
    {
        self.run_timeout_ms
    }

    /// Whether the run performs deeper fault triage on a crash.
    pub fn crash_analysis(&self) -> (c: bool)
        ensures
            c == self.crash_analysis_spec(),
    {
        self.crash_analysis
    }
}

/// One instrumentation session: fixed startup arguments, one timeout, and
/// the coverage locations reported so far.
pub struct Session {
    startup: CArgs,
    timeout_ms: u32,
    reported: Vec<u64>,
}

impl Session {
    /// The session invariant: the startup arguments keep their layout
    /// invariant and no location is recorded as reported twice.
    pub closed spec fn wf(&self) -> bool {
        &&& self.startup.wf()
        &&& forall|a: int, b: int|
            0 <= a < b < self.reported@.len() ==> self.reported@[a] != self.reported@[b]
    }

    /// The byte encodings of the engine-startup argument tokens.
    pub closed spec fn startup_args(&self) -> Seq<Seq<u8>> {
        self.startup@
    }

    /// The timeout bounding both phases of every run, in milliseconds.
    pub closed spec fn timeout_spec(&self) -> u32 {
        self.timeout_ms
    }

    /// Every location this session has ever returned from a collection.
    pub closed spec fn reported(&self) -> Set<u64> {
        self.reported@.to_set()
    }

    /// Creates a session: validates and marshals the engine-startup
    /// arguments and starts with nothing reported.
    ///
    /// Succeeds exactly when the startup arguments are marshalable; an
    /// empty list is a configuration error, an embedded terminator byte an
    /// encoding error. This is the only way to obtain a `Session`, so every
    /// session a caller can hold carries valid, marshaled engine
    /// configuration.
    pub fn new(engine_startup_args: &Vec<String>, timeout_ms: u32) -> (result: Result<
        Session,
        SessionError,
    >)
        ensures
            match result {
                Ok(s) => {
                    &&& args_ok(arg_bytes(engine_startup_args@))
                    &&& s.wf()
                    &&& s.startup_args() == arg_bytes(engine_startup_args@)
                    &&& s.timeout_spec() == timeout_ms
                    &&& s.reported() == Set::<u64>::empty()
                },
                Err(e) => {
                    &&& !args_ok(arg_bytes(engine_startup_args@))
                    &&& (e == SessionError::Configuration <==> !(0 < engine_startup_args@.len()
                        <= MAX_ARG_COUNT))
                    &&& (e == SessionError::Encoding <==> 0 < engine_startup_args@.len()
                        <= MAX_ARG_COUNT)
                },
            },
    {
        match marshal(engine_startup_args) {
            Ok(startup) => {
                let s = Session { startup, timeout_ms, reported: Vec::new() };
                proof {
                    assert(s.reported@.to_set() =~= Set::<u64>::empty());
                }
                Ok(s)
            },
            Err(e) => Err(e),
        }
    }

    /// The marshaled startup arguments: what the engine's one-time
    /// configuration entry point is given.
    pub fn startup_call(&self) -> (c: &CArgs)
        requires
            self.wf(),
        ensures
            c.wf(),
            c@ == self.startup_args(),
    {
        &self.startup
    }

    /// The configured timeout, in milliseconds.
    pub fn timeout_ms(&self) -> (t: u32)
        ensures
            t == self.timeout_spec(),
    {
        self.timeout_ms
    }

    /// Builds the foreign call data for one run of the target process:
    /// marshals the target arguments and bounds both phases with the
    /// session timeout.
    ///
    /// Succeeds exactly when the target arguments are marshalable, with the
    /// same error split as [`Session::new`]. The engine is not retried on
    /// any outcome; retry policy belongs to the caller.
    pub fn run_call(&self, target_args: &Vec<String>, crash_analysis: bool) -> (result: Result<
        RunCall,
        SessionError,
    >)
        requires
            self.wf(),
        ensures
            match result {
                Ok(rc) => {
                    &&& args_ok(arg_bytes(target_args@))
                    &&& rc.wf()
                    &&& rc.args_view() == arg_bytes(target_args@)
                    &&& rc.init_timeout_spec() == self.timeout_spec()
                    &&& rc.run_timeout_spec() == self.timeout_spec()
                    &&& rc.crash_analysis_spec() == crash_analysis
                },
                Err(e) => {
                    &&& !args_ok(arg_bytes(target_args@))
                    &&& (e == SessionError::Configuration <==> !(0 < target_args@.len()
                        <= MAX_ARG_COUNT))
                    &&& (e == SessionError::Encoding <==> 0 < target_args@.len() <= MAX_ARG_COUNT)
                },
            },
    {
        match marshal(target_args) {
            Ok(args) => Ok(
                RunCall {
                    args,
                    init_timeout_ms: self.timeout_ms,
                    run_timeout_ms: self.timeout_ms,
                    crash_analysis,
                },
            ),
            Err(e) => Err(e),
        }
    }

    /// Absorbs one extraction of observed coverage and returns only the
    /// locations never reported before; those locations are recorded so no
    /// later collection returns them again.
    ///
    /// The returned delta is duplicate-free and is exactly
    /// [`collect_delta`] of the session's reported set and the observation;
    /// the session's reported set afterwards is exactly [`collect_after`]
    /// of the two. Extraction and recording happen in one call, so no
    /// caller can see coverage extracted but not yet marked reported.
    pub fn collect_coverage(&mut self, observed: &Vec<u64>) -> (delta: Vec<u64>)
        requires
            old(self).wf(),
        ensures
            final(self).wf(),
            final(self).startup_args() == old(self).startup_args(),
            final(self).timeout_spec() == old(self).timeout_spec(),
            final(self).reported() == collect_after(old(self).reported(), observed@.to_set()),
            delta@.to_set() == collect_delta(old(self).reported(), observed@.to_set()),
            forall|a: int, b: int| 0 <= a < b < delta@.len() ==> delta@[a] != delta@[b],
    {
        let ghost orig = *self;
        let mut delta: Vec<u64> = Vec::new();
        let mut k: usize = 0;
        proof {
            assert(observed@.take(0) =~= Seq::<u64>::empty());
            assert(Seq::<u64>::empty().to_set() =~= Set::<u64>::empty());
            assert(self.reported@.to_set() =~= collect_after(
                orig.reported@.to_set(),
                Seq::<u64>::empty().to_set(),
            ));
            assert(delta@.to_set() =~= collect_delta(
                orig.reported@.to_set(),
                Seq::<u64>::empty().to_set(),
            ));
        }
        while k < observed.len()
            invariant
                self.startup == orig.startup,
                self.timeout_ms == orig.timeout_ms,
                forall|a: int, b: int|
                    0 <= a < b < self.reported@.len() ==> self.reported@[a] != self.reported@[b],
                forall|a: int, b: int| 0 <= a < b < delta@.len() ==> delta@[a] != delta@[b],
                k <= observed@.len(),
                self.reported@.to_set() == collect_after(
                    orig.reported@.to_set(),
                    observed@.take(k as int).to_set(),
                ),
                delta@.to_set() == collect_delta(
                    orig.reported@.to_set(),
                    observed@.take(k as int).to_set(),
                ),
            decreases observed@.len() - k,
        {
            let ghost pre_rep = self.reported@;
            let ghost pre_delta = delta@;
            let ghost tk = observed@.take(k as int);
            let x = observed[k];
            let present = contains_u64(&self.reported, x);
            if !present {
                delta.push(x);
                self.reported.push(x);
                proof {
                    assert forall|a: int, b: int|
                        0 <= a < b < self.reported@.len() implies self.reported@[a]
                        != self.reported@[b] by {
                        if b == pre_rep.len() {
                            assert(self.reported@[a] == pre_rep[a]);
                            assert(pre_rep.contains(pre_rep[a]));
                        } else {
                            assert(self.reported@[a] == pre_rep[a]);
                            assert(self.reported@[b] == pre_rep[b]);
                        }
                    }
                    assert(!pre_rep.to_set().contains(x));
                    assert(!tk.to_set().contains(x));
                    assert(!pre_delta.to_set().contains(x));
                    assert(!pre_delta.contains(x));
                    assert forall|a: int, b: int|
                        0 <= a < b < delta@.len() implies delta@[a] != delta@[b] by {
                        if b == pre_delta.len() {
                            assert(delta@[a] == pre_delta[a]);
                            assert(pre_delta.contains(pre_delta[a]));
                        } else {
                            assert(delta@[a] == pre_delta[a]);
                            assert(delta@[b] == pre_delta[b]);
                        }
                    }
                }
            }
            proof {
                let tk1 = observed@.take(k as int + 1);
                assert(tk1 =~= tk.push(x));
                tk.lemma_push_to_set_commute(x);
                if !present {
                    pre_rep.lemma_push_to_set_commute(x);
                    pre_delta.lemma_push_to_set_commute(x);
                    assert(!pre_rep.to_set().contains(x));
                    assert(!tk.to_set().contains(x));
                    assert(!orig.reported@.to_set().contains(x));
                    assert(self.reported@.to_set() =~= collect_after(
                        orig.reported@.to_set(),
                        tk1.to_set(),
                    ));
                    assert(delta@.to_set() =~= collect_delta(
                        orig.reported@.to_set(),
                        tk1.to_set(),
                    ));
                } else {
                    assert(pre_rep.to_set().contains(x));
                    assert(self.reported@.to_set() =~= collect_after(
                        orig.reported@.to_set(),
                        tk1.to_set(),
                    ));
                    assert(delta@.to_set() =~= collect_delta(
                        orig.reported@.to_set(),
                        tk1.to_set(),
                    ));
                }
            }
            k += 1;
        }
        proof {
            assert(observed@.take(observed@.len() as int) =~= observed@);
        }
        delta
    }

    /// As [`Session::collect_coverage`], but renders the newly observed
    /// locations into a caller-owned fixed-capacity bitmap instead of an
    /// exact list: a slot ends up `1` exactly when some location of the
    /// delta folds into it.
    pub fn collect_coverage_dense(&mut self, observed: &Vec<u64>, map: &mut Vec<u8>)
        requires
            old(self).wf(),
            old(map).len() > 0,
        ensures
            final(self).wf(),
            final(self).startup_args() == old(self).startup_args(),
            final(self).timeout_spec() == old(self).timeout_spec(),
            final(self).reported() == collect_after(old(self).reported(), observed@.to_set()),
            final(map)@.len() == old(map)@.len(),
            forall|s: int|
                0 <= s < final(map)@.len() ==> (final(map)@[s] == 1u8 <==> exists|loc: u64|
                    collect_delta(old(self).reported(), observed@.to_set()).contains(loc)
                        && #[trigger] dense_slot(loc, final(map)@.len()) == s),
    {
        let delta = self.collect_coverage(observed);
        render_dense(&delta, map);
        proof {
            let dset = collect_delta(old(self).reported(), observed@.to_set());
            let n = map@.len();
            assert forall|s: int|
                0 <= s < n implies (map@[s] == 1u8 <==> exists|loc: u64|
                dset.contains(loc) && #[trigger] dense_slot(loc, n) == s) by {
                if map@[s] == 1u8 {
                    let k = choose|k: int|
                        0 <= k < delta@.len() && dense_slot(#[trigger] delta@[k], n) == s;
                    assert(delta@.contains(delta@[k]));
                    assert(delta@.to_set().contains(delta@[k]));
                    assert(dset.contains(delta@[k]) && dense_slot(delta@[k], n) == s);
                } else {
                    if exists|loc: u64| dset.contains(loc) && #[trigger] dense_slot(loc, n) == s {
                        let loc = choose|loc: u64|
                            dset.contains(loc) && #[trigger] dense_slot(loc, n) == s;
                        assert(delta@.to_set().contains(loc));
                        assert(delta@.contains(loc));
                        let k = choose|k: int| 0 <= k < delta@.len() && delta@[k] == loc;
                        assert(dense_slot(delta@[k], n) == s);
                        assert(map@[s] == 1u8);
                    }
                }
            }
        }
    }
}

/// Linear membership scan over a location list.
fn contains_u64(v: &Vec<u64>, x: u64) -> (found: bool)
    ensures
        found == v@.contains(x),
{
    let mut i: usize = 0;
    while i < v.len()
        invariant
            i <= v@.len(),
            forall|p: int| 0 <= p < i ==> v@[p] != x,
        decreases v@.len() - i,
    {
        if v[i] == x {
            proof {
                assert(v@[i as int] == x);
            }
            return true;
        }
        i += 1;
    }
    false
}

} // verus!
