//! The inference worker's protocol and decisions.
//!
//! The model runs on a dedicated thread and the UI talks to it over channels.
//! The thread, the channels and the engine itself live in the application;
//! this module holds the requests it receives and [`WorkerPlan`], which
//! decides when the engine is built and dropped: eagerly for the hot policy,
//! once per decision for the on-demand policy, and again whenever the
//! checkpoint or precision changes.

use vstd::prelude::*;

use crate::settings::Quant;
use crate::text::{chars_of, string_of};

verus! {

/// A unit of work for the worker.
#[derive(Debug, Clone, PartialEq, Eq)]
pub enum Request {
    /// Run one `choice` decision.
    Decide {
        /// Caller-assigned decision id, echoed on the reply.
        id: u64,
        /// The optional context, sent as the model's `state`.
        context: String,
        /// The question text.
        question: String,
        /// The candidate answers, in capture order.
        answers: Vec<String>,
    },
    /// Apply changed settings: rebuild for `checkpoint`/`quant` and set the
    /// unload policy.
    Configure {
        /// The checkpoint id to load.
        checkpoint: String,
        /// The weight precision to load.
        quant: Quant,
        /// Whether to unload the engine after each decision.
        on_demand: bool,
    },
}

/// The worker thread is no longer running.
#[derive(Debug, Clone, Copy, PartialEq, Eq, Structural)]
pub struct WorkerGone;

impl WorkerGone {
    /// The user-facing message.
    pub fn message(&self) -> (r: String)
        ensures
            r@ == "the inference worker has stopped"@,
    {
        string_of(chars_of("the inference worker has stopped").as_slice())
    }
}

/// The failure reported for a decision when no engine could be built.
pub fn load_failure_message() -> (r: String)
    ensures
        r@ == "the model could not be loaded"@,
{
    string_of(chars_of("the model could not be loaded").as_slice())
}

/// What the worker should build an engine for.
pub open spec fn same_target(a: (String, Quant), checkpoint: String, quant: Quant) -> bool {
    a.0@ == checkpoint@ && a.1 == quant
}

/// When the worker's engine is built and dropped.
///
/// `engine` records what the live engine was built for; it always matches the
/// current checkpoint and precision.
pub struct WorkerPlan {
    checkpoint: String,
    quant: Quant,
    on_demand: bool,
    engine: Option<(String, Quant)>,
}

impl WorkerPlan {
    /// A live engine is always built for the current target.
    #[verifier::type_invariant]
    closed spec fn engine_is_current(self) -> bool {
        self.engine matches Some(target) ==> same_target(target, self.checkpoint, self.quant)
    }

    /// The checkpoint id engines are built for.
    pub closed spec fn spec_checkpoint(self) -> Seq<char> {
        self.checkpoint@
    }

    /// The precision engines are built for.
    pub closed spec fn spec_quant(self) -> Quant {
        self.quant
    }

    /// Whether the engine is dropped after each decision.
    pub closed spec fn spec_on_demand(self) -> bool {
        self.on_demand
    }

    /// Whether an engine is live.
    pub closed spec fn spec_loaded(self) -> bool {
        self.engine is Some
    }

    /// A plan for `checkpoint` at `quant` with no engine built yet.
    pub fn new(checkpoint: String, quant: Quant, on_demand: bool) -> (p: Self)
        ensures
            p.spec_checkpoint() == checkpoint@,
            p.spec_quant() == quant,
            p.spec_on_demand() == on_demand,
            !p.spec_loaded(),
    {
        WorkerPlan { checkpoint, quant, on_demand, engine: None }
    }

    /// Whether the engine is built eagerly at start-up (the hot policy).
    pub fn preload(&self) -> (b: bool)
        ensures
            b == !self.spec_on_demand(),
    {
        !self.on_demand
    }

    /// The checkpoint id to build an engine for.
    pub fn checkpoint(&self) -> (r: &str)
        ensures
            r@ == self.spec_checkpoint(),
    {
        self.checkpoint.as_str()
    }

    /// The precision to build an engine for.
    pub fn quant(&self) -> (q: Quant)
        ensures
            q == self.spec_quant(),
    {
        self.quant
    }

    /// Whether a decision must first build an engine.
    pub fn needs_engine(&self) -> (b: bool)
        ensures
            b == !self.spec_loaded(),
    {
        self.engine.is_none()
    }

    /// Record the outcome of building an engine for the current target.
    pub fn engine_built(&mut self, ok: bool)
        ensures
            final(self).spec_checkpoint() == old(self).spec_checkpoint(),
            final(self).spec_quant() == old(self).spec_quant(),
            final(self).spec_on_demand() == old(self).spec_on_demand(),
            final(self).spec_loaded() == ok,
    {
        if ok {
            self.engine = Some((self.checkpoint.clone(), self.quant));
        } else {
            self.engine = None;
        }
    }

    /// A decision finished: the on-demand policy drops the engine, the hot
    /// policy keeps it.
    pub fn decision_done(&mut self)
        ensures
            final(self).spec_checkpoint() == old(self).spec_checkpoint(),
            final(self).spec_quant() == old(self).spec_quant(),
            final(self).spec_on_demand() == old(self).spec_on_demand(),
            final(self).spec_loaded() == (old(self).spec_loaded() && !old(self).spec_on_demand()),
    {
        if self.on_demand {
            self.engine = None;
        }
    }

    /// Apply changed settings. A new checkpoint or precision drops the engine
    /// and, under the hot policy, asks for it to be rebuilt now; the
    /// on-demand policy drops any live engine. Returns whether to build now.
    pub fn configure(&mut self, checkpoint: String, quant: Quant, on_demand: bool) -> (load: bool)
        ensures
            final(self).spec_checkpoint() == checkpoint@,
            final(self).spec_quant() == quant,
            final(self).spec_on_demand() == on_demand,
            ({
                let changed = old(self).spec_checkpoint() != checkpoint@ || old(self).spec_quant()
                    != quant;
                &&& load == (changed && !on_demand)
                &&& final(self).spec_loaded() == (!changed && !on_demand && old(
                    self,
                ).spec_loaded())
            }),
    {
        proof {
            use_type_invariant(&*self);
        }
        let same_checkpoint = crate::text::str_eq(self.checkpoint.as_str(), checkpoint.as_str());
        let changed = !same_checkpoint || self.quant != quant;
        let mut load = false;
        if changed {
            self.engine = None;
            self.checkpoint = checkpoint;
            self.quant = quant;
            load = !on_demand;
        }
        self.on_demand = on_demand;
        if on_demand {
            self.engine = None;
        }
        load
    }
}

} // verus!
