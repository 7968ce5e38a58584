//! The control loop of text generation.
//!
//! Generation feeds the prompt's tokens to the model, samples one token at a
//! time and stops at an end-of-sequence token or after a budget of new
//! tokens. The model's forward pass and the sampling work on floating-point
//! logits and stay with the caller; this module decides what each pass is
//! given and when the loop ends.

use vstd::prelude::*;

verus! {

/// How many of the most recent tokens the repetition penalty looks at.
pub const REPEAT_LAST_N: usize = 64;

/// The abstract state of a generation.
pub struct GenerationView {
    /// The tokens of the encoded prompt.
    pub prompt: Seq<u32>,
    /// The tokens sampled so far, in order.
    pub generated: Seq<u32>,
    /// The tokens that end the sequence.
    pub eos_tokens: Seq<u32>,
    /// The most tokens that may be sampled.
    pub max_new_tokens: nat,
    /// Whether the last sampled token ends the sequence.
    pub finished: bool,
}

impl GenerationView {
    /// Every token so far: the prompt followed by what was sampled.
    pub open spec fn tokens(self) -> Seq<u32> {
        self.prompt + self.generated
    }

    /// Whether no more token is to be sampled.
    pub open spec fn done(self) -> bool {
        self.finished || self.generated.len() >= self.max_new_tokens
    }

    /// The budget is kept, `finished` says whether the last sampled token
    /// ends the sequence, and no earlier sampled token does.
    pub open spec fn wf(self) -> bool {
        &&& self.generated.len() <= self.max_new_tokens
        &&& self.finished <==> (self.generated.len() > 0 && self.eos_tokens.contains(
            self.generated.last(),
        ))
        &&& forall|i: int|
            0 <= i < self.generated.len() - 1 ==> !self.eos_tokens.contains(
                #[trigger] self.generated[i],
            )
    }

    /// How many tokens the next pass is given: the whole prompt at first,
    /// then only the token sampled last.
    pub open spec fn context_size(self) -> nat {
        if self.generated.len() > 0 {
            1
        } else {
            self.tokens().len()
        }
    }

    /// The position of the first token the next pass is given.
    pub open spec fn start_pos(self) -> nat {
        saturating_sub(self.tokens().len(), self.context_size())
    }

    /// Where the tokens the repetition penalty looks at begin.
    pub open spec fn penalty_start(self) -> nat {
        saturating_sub(self.tokens().len(), REPEAT_LAST_N as nat)
    }

    /// The state after `token` was sampled.
    pub open spec fn accept(self, token: u32) -> GenerationView {
        GenerationView {
            generated: self.generated.push(token),
            finished: self.eos_tokens.contains(token),
            ..self
        }
    }
}

/// `a - b`, or 0 where `b` is larger.
pub open spec fn saturating_sub(a: nat, b: nat) -> nat {
    if a >= b {
        (a - b) as nat
    } else {
        0
    }
}

/// What the model is given for one forward pass.
pub struct StepInput {
    /// The position of the first token of `context` in the sequence.
    pub start_pos: usize,
    /// The tokens fed to the model.
    pub context: Vec<u32>,
    /// The most recent tokens, whose logits the repetition penalty lowers.
    pub penalty_window: Vec<u32>,
}

/// A generation in progress.
pub struct Generation {
    tokens: Vec<u32>,
    prompt_len: usize,
    eos_tokens: Vec<u32>,
    max_new_tokens: usize,
    finished: bool,
}

impl View for Generation {
    type V = GenerationView;

    closed spec fn view(&self) -> GenerationView {
        GenerationView {
            prompt: self.tokens@.subrange(0, self.prompt_len as int),
            generated: self.tokens@.subrange(self.prompt_len as int, self.tokens@.len() as int),
            eos_tokens: self.eos_tokens@,
            max_new_tokens: self.max_new_tokens as nat,
            finished: self.finished,
        }
    }
}

/// A copy of `v` from index `start` on.
fn copy_tail(v: &Vec<u32>, start: usize) -> (r: Vec<u32>)
    requires
        start <= v.len(),
    ensures
        r@ == v@.subrange(start as int, v.len() as int),
{
    let mut r: Vec<u32> = Vec::new();
    let mut i: usize = start;
    while i < v.len()
        invariant
            start <= i <= v.len(),
            r@ == v@.subrange(start as int, i as int),
        decreases v.len() - i,
    {
        r.push(v[i]);
        i = i + 1;
        assert(r@ =~= v@.subrange(start as int, i as int));
    }
    r
}

/// Whether `t` occurs in `v`.
fn contains_token(v: &Vec<u32>, t: u32) -> (b: bool)
    ensures
        b == v@.contains(t),
{
    let mut i: usize = 0;
    while i < v.len()
        invariant
            i <= v.len(),
            forall|j: int| 0 <= j < i ==> v@[j] != t,
        decreases v.len() - i,
    {
        if v[i] == t {
            return true;
        }
        i = i + 1;
    }
    false
}

impl Generation {
    /// The well-formedness of the state.
    pub closed spec fn wf(&self) -> bool {
        &&& self.prompt_len <= self.tokens@.len()
        &&& self@.wf()
    }

    /// A well-formed generation has a well-formed abstract state: it keeps
    /// its budget, and only its last sampled token may end the sequence.
    pub proof fn lemma_wf(&self)
        requires
            self.wf(),
        ensures
            self@.wf(),
    {
    }

    /// Starts a generation from the encoded prompt.
    pub fn new(prompt_tokens: Vec<u32>, eos_tokens: Vec<u32>, max_new_tokens: usize) -> (g: Self)
        ensures
            g.wf(),
            g@.prompt == prompt_tokens@,
            g@.generated == Seq::<u32>::empty(),
            g@.eos_tokens == eos_tokens@,
            g@.max_new_tokens == max_new_tokens,
            !g@.finished,
    {
        let prompt_len: usize = prompt_tokens.len();
        let g = Generation {
            tokens: prompt_tokens,
            prompt_len,
            eos_tokens,
            max_new_tokens,
            finished: false,
        };
        assert(g@.prompt =~= prompt_tokens@);
        assert(g@.generated =~= Seq::<u32>::empty());
        g
    }

    /// Whether the loop is over: an end-of-sequence token was sampled or the
    /// budget is spent.
    pub fn is_done(&self) -> (b: bool)
        requires
            self.wf(),
        ensures
            b == self@.done(),
    {
        self.finished || self.tokens.len() - self.prompt_len >= self.max_new_tokens
    }

    /// What the next forward pass is given, or `None` where the loop is over.
    #[verifier::rlimit(40)]
    pub fn next_step(&self) -> (s: Option<StepInput>)
        requires
            self.wf(),
        ensures
            s is None <==> self@.done(),
            s matches Some(step) ==> {
                &&& step.start_pos == self@.start_pos()
                &&& step.context@ == self@.tokens().subrange(
                    self@.start_pos() as int,
                    self@.tokens().len() as int,
                )
                &&& step.penalty_window@ == self@.tokens().subrange(
                    self@.penalty_start() as int,
                    self@.tokens().len() as int,
                )
            },
            s matches Some(step) ==> if self@.generated.len() == 0 {
                step.start_pos == 0 && step.context@ == self@.prompt
            } else {
                step.start_pos == self@.tokens().len() - 1 && step.context@ == seq![
                    self@.generated.last(),
                ]
            },
            s matches Some(step) ==> if self@.tokens().len() <= REPEAT_LAST_N {
                step.penalty_window@ == self@.tokens()
            } else {
                step.penalty_window@.len() == REPEAT_LAST_N && self@.tokens() == self@.tokens().take(
                    self@.tokens().len() - REPEAT_LAST_N,
                ) + step.penalty_window@
            },
    {
        if self.is_done() {
            return None;
        }
        let len: usize = self.tokens.len();
        let context_size: usize = if len > self.prompt_len {
            1
        } else {
            len
        };
        let start_pos: usize = if len >= context_size {
            len - context_size
        } else {
            0
        };
        let penalty_start: usize = if len >= REPEAT_LAST_N {
            len - REPEAT_LAST_N
        } else {
            0
        };
        proof {
            assert(self@.tokens() =~= self.tokens@);
            lemma_pass_inputs(self@);
        }
        Some(
            StepInput {
                start_pos,
                context: copy_tail(&self.tokens, start_pos),
                penalty_window: copy_tail(&self.tokens, penalty_start),
            },
        )
    }

    /// Records the token sampled by the last forward pass.
    pub fn accept(&mut self, token: u32)
        requires
            old(self).wf(),
            !old(self)@.done(),
        ensures
            final(self).wf(),
            final(self)@ == old(self)@.accept(token),
    {
        let is_eos = contains_token(&self.eos_tokens, token);
        self.tokens.push(token);
        self.finished = is_eos;
        proof {
            let o = old(self)@;
            let n = self@;
            assert(n.prompt =~= o.prompt);
            assert(n.generated =~= o.generated.push(token));
            assert forall|i: int| 0 <= i < n.generated.len() - 1 implies !n.eos_tokens.contains(
                #[trigger] n.generated[i],
            ) by {
                assert(n.generated[i] == o.generated[i]);
                if i == o.generated.len() - 1 {
                    assert(!o.finished);
                }
            }
            assert(n == o.accept(token));
        }
    }

    /// Every token so far: the prompt followed by what was sampled.
    pub fn tokens(&self) -> (t: &Vec<u32>)
        requires
            self.wf(),
        ensures
            t@ == self@.tokens(),
    {
        proof {
            assert(self@.tokens() =~= self.tokens@);
        }
        &self.tokens
    }

    /// The tokens sampled so far.
    pub fn generated(&self) -> (t: Vec<u32>)
        requires
            self.wf(),
        ensures
            t@ == self@.generated,
    {
        copy_tail(&self.tokens, self.prompt_len)
    }
}

/// What each forward pass is given: the first pass is given the whole
/// prompt from position 0; every later pass only the token sampled last, at
/// its own position. The repetition penalty looks at the last 64 tokens, or
/// at all of them where there are fewer.
pub proof fn lemma_pass_inputs(v: GenerationView)
    ensures
        v.generated.len() == 0 ==> v.start_pos() == 0 && v.tokens().subrange(
            v.start_pos() as int,
            v.tokens().len() as int,
        ) == v.prompt,
        v.generated.len() > 0 ==> v.start_pos() == v.tokens().len() - 1 && v.tokens().subrange(
            v.start_pos() as int,
            v.tokens().len() as int,
        ) == seq![v.generated.last()],
        v.tokens().len() <= REPEAT_LAST_N ==> v.tokens().subrange(
            v.penalty_start() as int,
            v.tokens().len() as int,
        ) == v.tokens(),
        v.tokens().len() > REPEAT_LAST_N ==> v.tokens().subrange(
            v.penalty_start() as int,
            v.tokens().len() as int,
        ).len() == REPEAT_LAST_N && v.tokens() == v.tokens().take(v.tokens().len() - REPEAT_LAST_N)
            + v.tokens().subrange(v.penalty_start() as int, v.tokens().len() as int),
{
    let t = v.tokens();
    if v.generated.len() == 0 {
        assert(t.subrange(0, t.len() as int) =~= v.prompt);
    } else {
        assert(t.subrange(t.len() - 1, t.len() as int) =~= seq![v.generated.last()]);
    }
    if t.len() <= REPEAT_LAST_N {
        assert(t.subrange(0, t.len() as int) =~= t);
    } else {
        assert(t =~= t.take(t.len() - REPEAT_LAST_N) + t.subrange(
            v.penalty_start() as int,
            t.len() as int,
        ));
    }
}

/// The state after `samples` are offered one by one, each accepted while
/// the loop is not over.
pub open spec fn run(v: GenerationView, samples: Seq<u32>) -> GenerationView
    decreases samples.len(),
{
    if samples.len() == 0 || v.done() {
        v
    } else {
        run(v.accept(samples[0]), samples.drop_first())
    }
}

/// How many of `samples` a generation with `budget` tokens left takes: up to
/// and including the first end-of-sequence token, at most `budget`.
pub open spec fn taken(eos_tokens: Seq<u32>, budget: nat, samples: Seq<u32>) -> nat
    decreases samples.len(),
{
    if budget == 0 || samples.len() == 0 {
        0
    } else if eos_tokens.contains(samples[0]) {
        1
    } else {
        1 + taken(eos_tokens, (budget - 1) as nat, samples.drop_first())
    }
}

/// Sampling one more token keeps a state well formed.
pub proof fn lemma_accept_wf(v: GenerationView, token: u32)
    requires
        v.wf(),
        !v.done(),
    ensures
        v.accept(token).wf(),
        v.accept(token).prompt == v.prompt,
        v.accept(token).tokens() == v.tokens().push(token),
{
    let n = v.accept(token);
    assert forall|i: int| 0 <= i < n.generated.len() - 1 implies !n.eos_tokens.contains(
        #[trigger] n.generated[i],
    ) by {
        assert(n.generated[i] == v.generated[i]);
    }
    assert(n.tokens() =~= v.tokens().push(token));
}

/// What the generation loop produces: offered any samples, a well-formed
/// generation keeps its prompt and appends the samples up to and including
/// the first end-of-sequence token, never more than its budget; once over,
/// it takes nothing more.
pub proof fn lemma_run_appends_prefix(v: GenerationView, samples: Seq<u32>)
    requires
        v.wf(),
    ensures
        run(v, samples).wf(),
        run(v, samples).prompt == v.prompt,
        run(v, samples).eos_tokens == v.eos_tokens,
        run(v, samples).max_new_tokens == v.max_new_tokens,
        run(v, samples).generated == v.generated + samples.take(
            if v.done() {
                0
            } else {
                taken(v.eos_tokens, (v.max_new_tokens - v.generated.len()) as nat, samples) as int
            },
        ),
    decreases samples.len(),
{
    if samples.len() == 0 || v.done() {
        assert(samples.take(0) =~= Seq::<u32>::empty());
        assert(v.generated + samples.take(0) =~= v.generated);
        if !v.done() {
            assert(taken(v.eos_tokens, (v.max_new_tokens - v.generated.len()) as nat, samples) == 0);
        }
    } else {
        let n = v.accept(samples[0]);
        lemma_accept_wf(v, samples[0]);
        let rest = samples.drop_first();
        lemma_run_appends_prefix(n, rest);
        let budget = (v.max_new_tokens - v.generated.len()) as nat;
        if n.done() {
            if v.eos_tokens.contains(samples[0]) {
                assert(taken(v.eos_tokens, budget, samples) == 1);
            } else {
                assert(budget == 1);
                assert(taken(v.eos_tokens, (budget - 1) as nat, rest) == 0);
            }
            assert(n.generated + rest.take(0) =~= v.generated + samples.take(1));
        } else {
            let k = taken(v.eos_tokens, (n.max_new_tokens - n.generated.len()) as nat, rest);
            lemma_taken_bounds(v.eos_tokens, (n.max_new_tokens - n.generated.len()) as nat, rest);
            assert(!v.eos_tokens.contains(samples[0]));
            assert(taken(v.eos_tokens, budget, samples) == 1 + k);
            assert(n.generated + rest.take(k as int) =~= v.generated + samples.take(1 + k as int));
        }
    }
}

/// A generation never samples more than its budget, and stops taking
/// samples right after an end-of-sequence token.
pub proof fn lemma_taken_bounds(eos_tokens: Seq<u32>, budget: nat, samples: Seq<u32>)
    ensures
        taken(eos_tokens, budget, samples) <= budget,
        taken(eos_tokens, budget, samples) <= samples.len(),
        forall|i: int|
            0 <= i < taken(eos_tokens, budget, samples) - 1 ==> !eos_tokens.contains(
                #[trigger] samples[i],
            ),
        taken(eos_tokens, budget, samples) < budget && taken(eos_tokens, budget, samples)
            < samples.len() ==> taken(eos_tokens, budget, samples) > 0 && eos_tokens.contains(
            samples[taken(eos_tokens, budget, samples) - 1],
        ),
    decreases samples.len(),
{
    if budget == 0 || samples.len() == 0 {
    } else if eos_tokens.contains(samples[0]) {
    } else {
        let rest = samples.drop_first();
        lemma_taken_bounds(eos_tokens, (budget - 1) as nat, rest);
        let k = taken(eos_tokens, (budget - 1) as nat, rest);
        assert forall|i: int| 0 <= i < k implies !eos_tokens.contains(#[trigger] samples[i]) by {
            if i > 0 {
                assert(samples[i] == rest[i - 1]);
            }
        }
        if k + 1 < budget && k + 1 < samples.len() {
            assert(samples[k as int] == rest[k - 1]);
        }
    }
}

/// The ids found for the end-of-sequence tokens, in the order they were
/// asked for; a name the vocabulary lacks adds nothing.
pub open spec fn found_ids(lookups: Seq<Option<u32>>) -> Seq<u32>
    decreases lookups.len(),
{
    if lookups.len() == 0 {
        Seq::empty()
    } else {
        let rest = found_ids(lookups.drop_last());
        match lookups.last() {
            Some(id) => rest.push(id),
            None => rest,
        }
    }
}

/// Keeps the end-of-sequence ids the vocabulary knows, given the lookup of
/// each configured end-of-sequence token.
pub fn resolve_eos_tokens(lookups: Vec<Option<u32>>) -> (ids: Vec<u32>)
    ensures
        ids@ == found_ids(lookups@),
{
    let mut ids: Vec<u32> = Vec::new();
    let mut i: usize = 0;
    while i < lookups.len()
        invariant
            i <= lookups.len(),
            ids@ == found_ids(lookups@.subrange(0, i as int)),
        decreases lookups.len() - i,
    {
        proof {
            assert(lookups@.subrange(0, i as int + 1).drop_last() =~= lookups@.subrange(0, i as int));
        }
        match lookups[i] {
            Some(id) => ids.push(id),
            None => {},
        }
        i = i + 1;
    }
    proof {
        assert(lookups@.subrange(0, lookups.len() as int) =~= lookups@);
    }
    ids
}


/// The ids found for a concatenation are those found for each part.
pub proof fn lemma_found_ids_concat(a: Seq<Option<u32>>, b: Seq<Option<u32>>)
    ensures
        found_ids(a + b) == found_ids(a) + found_ids(b),
    decreases b.len(),
{
    if b.len() == 0 {
        assert(a + b =~= a);
        assert(found_ids(a) + found_ids(b) =~= found_ids(a));
    } else {
        lemma_found_ids_concat(a, b.drop_last());
        assert((a + b).drop_last() =~= a + b.drop_last());
        assert((a + b).last() == b.last());
        match b.last() {
            Some(id) => {
                assert(found_ids(a) + found_ids(b) =~= (found_ids(a) + found_ids(b.drop_last())).push(id));
            },
            None => {},
        }
    }
}

/// An end-of-sequence name that the vocabulary lacks is skipped, never an
/// error: a failed lookup, wherever it stands, changes nothing of the ids
/// that are kept.
pub proof fn lemma_missing_eos_name_changes_nothing(a: Seq<Option<u32>>, b: Seq<Option<u32>>)
    ensures
        found_ids(a + seq![None::<u32>] + b) == found_ids(a + b),
{
    lemma_found_ids_concat(a + seq![None::<u32>], b);
    lemma_found_ids_concat(a, seq![None::<u32>]);
    lemma_found_ids_concat(a, b);
    assert(seq![None::<u32>].drop_last() =~= Seq::<Option<u32>>::empty());
    assert(found_ids(seq![None::<u32>]) == found_ids(Seq::<Option<u32>>::empty()));
    assert(found_ids(a) + found_ids(seq![None::<u32>]) =~= found_ids(a));
}

} // verus!
