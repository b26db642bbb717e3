//! The decode orchestrator: which format's decoder runs next, and when the
//! decode of a buffer is over. The decoders themselves are run by the caller,
//! which reports each outcome back.

use vstd::prelude::*;
use crate::format::{
    guess_image_format_from_magicnum, has_prefix, lemma_signature_selects_format, png_magic,
    sniff_format, ImageFormat,
};

verus! {

/// Why a decode failed.
#[derive(Clone, Copy, PartialEq, Eq, Debug, Structural)]
pub enum DecodeError {
    /// The format was recognized but no decoder handles it.
    UnsupportedFormat,
    /// A decoder reported the given non-zero status.
    NativeDecodeFailure(i32),
    /// Every format that was tried failed.
    AllFormatsFailed,
}

/// The formats that have a native decoder.
pub open spec fn has_adapter(f: ImageFormat) -> bool {
    f == ImageFormat::Jpeg || f == ImageFormat::Png
}

/// Whether format `f` has a native decoder.
pub fn format_has_adapter(f: ImageFormat) -> (r: bool)
    ensures
        r == has_adapter(f),
{
    match f {
        ImageFormat::Jpeg | ImageFormat::Png => true,
        _ => false,
    }
}

/// Turns the status that a decoder reports into a result: zero is success.
pub fn adapter_result(status: i32) -> (r: Result<(), DecodeError>)
    ensures
        status == 0 ==> r == Ok::<(), DecodeError>(()),
        status != 0 ==> r == Err::<(), DecodeError>(DecodeError::NativeDecodeFailure(status)),
{
    if status == 0 {
        Ok(())
    } else {
        Err(DecodeError::NativeDecodeFailure(status))
    }
}

/// The formats to try, in order: the sniffed format first when it has a
/// decoder, then JPEG and PNG, each only if not already in the list.
pub open spec fn decode_plan(sniffed: Option<ImageFormat>) -> Seq<ImageFormat> {
    match sniffed {
        Some(ImageFormat::Png) => seq![ImageFormat::Png, ImageFormat::Jpeg],
        _ => seq![ImageFormat::Jpeg, ImageFormat::Png],
    }
}

/// What the caller does next.
#[derive(Clone, Copy, PartialEq, Eq, Debug)]
pub enum DecodeStep {
    /// Run the decoder of this format on the buffer and report the outcome.
    Attempt(ImageFormat),
    /// The decode is over: the format that succeeded, or the error.
    Finished(Result<ImageFormat, DecodeError>),
}

/// The state of a decode: the formats to try, those tried and failed, in
/// order, and the format that succeeded, if one did.
pub struct DecodeView {
    pub plan: Seq<ImageFormat>,
    pub tried: Seq<ImageFormat>,
    pub succeeded: Option<ImageFormat>,
}

/// The state in which a decode starts.
pub open spec fn initial_view(sniffed: Option<ImageFormat>) -> DecodeView {
    DecodeView { plan: decode_plan(sniffed), tried: Seq::empty(), succeeded: None }
}

/// What to do in state `s`.
pub open spec fn step_of(s: DecodeView) -> DecodeStep {
    match s.succeeded {
        Some(f) => DecodeStep::Finished(Ok(f)),
        None => if s.tried.len() < s.plan.len() {
            DecodeStep::Attempt(s.plan[s.tried.len() as int])
        } else {
            DecodeStep::Finished(Err(DecodeError::AllFormatsFailed))
        },
    }
}

/// The state after the attempt that `s` asks for succeeded (`ok`) or failed.
pub open spec fn after_outcome(s: DecodeView, ok: bool) -> DecodeView {
    let f = s.plan[s.tried.len() as int];
    if ok {
        DecodeView { succeeded: Some(f), ..s }
    } else {
        DecodeView { tried: s.tried.push(f), ..s }
    }
}

/// Drives a decode from `s` to its end, where the decoder of format `f`
/// succeeds exactly when `succeeds(f)`.
pub open spec fn run_to_end(s: DecodeView, succeeds: spec_fn(ImageFormat) -> bool) -> DecodeView
    decreases s.plan.len() - s.tried.len() + (if s.succeeded is None { 1int } else { 0int }),
{
    if s.succeeded is None && s.tried.len() < s.plan.len() {
        run_to_end(after_outcome(s, succeeds(s.plan[s.tried.len() as int])), succeeds)
    } else {
        s
    }
}

/// Sequences format sniffing, the decode of the sniffed format and the
/// fallback over the other formats with a decoder.
pub struct DecodeOrchestrator {
    plan: Vec<ImageFormat>,
    tried: Vec<ImageFormat>,
    succeeded: Option<ImageFormat>,
}

impl View for DecodeOrchestrator {
    type V = DecodeView;

    closed spec fn view(&self) -> DecodeView {
        DecodeView { plan: self.plan@, tried: self.tried@, succeeded: self.succeeded }
    }
}

impl DecodeOrchestrator {
    /// Starts the decode of `buf`, sniffing its format.
    pub fn new(buf: &[u8]) -> (r: Self)
        ensures
            r@ == initial_view(sniff_format(buf@)),
    {
        Self::for_format(guess_image_format_from_magicnum(buf))
    }

    /// Starts a decode whose sniffed format is `sniffed`.
    pub fn for_format(sniffed: Option<ImageFormat>) -> (r: Self)
        ensures
            r@ == initial_view(sniffed),
    {
        let mut plan: Vec<ImageFormat> = Vec::new();
        if let Some(f) = sniffed {
            if format_has_adapter(f) {
                plan.push(f);
            }
        }
        let ghost first = plan@;
        assert(first.len() == 1 ==> first =~= seq![sniffed.unwrap()]);
        assert(first.len() == 0 ==> first =~= Seq::<ImageFormat>::empty());
        if !plan_contains(&plan, ImageFormat::Jpeg) {
            plan.push(ImageFormat::Jpeg);
            assert(plan@ =~= first.push(ImageFormat::Jpeg));
        } else {
            assert(first.contains(ImageFormat::Jpeg));
            assert(first =~= seq![ImageFormat::Jpeg]);
        }
        let ghost second = plan@;
        assert(second.len() == 2 ==> second =~= seq![second[0], second[1]]);
        assert(second.len() == 1 ==> second =~= seq![ImageFormat::Jpeg]);
        if !plan_contains(&plan, ImageFormat::Png) {
            plan.push(ImageFormat::Png);
        } else {
            assert(second.contains(ImageFormat::Png));
        }
        let r = DecodeOrchestrator { plan, tried: Vec::new(), succeeded: None };
        assert(r@.plan =~= decode_plan(sniffed));
        assert(r@.tried =~= Seq::<ImageFormat>::empty());
        r
    }

    /// What the caller does next.
    pub fn next_step(&self) -> (r: DecodeStep)
        ensures
            r == step_of(self@),
    {
        match self.succeeded {
            Some(f) => DecodeStep::Finished(Ok(f)),
            None => if self.tried.len() < self.plan.len() {
                DecodeStep::Attempt(self.plan[self.tried.len()])
            } else {
                DecodeStep::Finished(Err(DecodeError::AllFormatsFailed))
            },
        }
    }

    /// Records the outcome of the attempt that `next_step` asked for.
    pub fn record(&mut self, outcome: Result<(), DecodeError>)
        requires
            step_of(old(self)@) is Attempt,
        ensures
            final(self)@ == after_outcome(old(self)@, outcome is Ok),
    {
        let f = self.plan[self.tried.len()];
        match outcome {
            Ok(()) => {
                self.succeeded = Some(f);
            },
            Err(_) => {
                self.tried.push(f);
            },
        }
    }
}

/// Every plan tries each format that has a decoder exactly once, and nothing
/// else, starting with the sniffed format when it has a decoder.
pub proof fn lemma_plan_covers_adapters(sniffed: Option<ImageFormat>)
    ensures
        decode_plan(sniffed).len() == 2,
        decode_plan(sniffed).no_duplicates(),
        forall|f: ImageFormat| decode_plan(sniffed).contains(f) <==> has_adapter(f),
        sniffed matches Some(f) ==> (has_adapter(f) ==> decode_plan(sniffed)[0] == f),
{
    let plan = decode_plan(sniffed);
    assert forall|f: ImageFormat| plan.contains(f) <==> has_adapter(f) by {
        if has_adapter(f) {
            if plan[0] == f {
                assert(plan.contains(f));
            } else {
                assert(plan[1] == f);
                assert(plan.contains(f));
            }
        }
    }
}

/// A buffer with the PNG signature goes to the PNG decoder first; when that
/// succeeds the decode is over after that one attempt, and when it fails the
/// JPEG decoder is tried next, the decode failing with `AllFormatsFailed` only
/// when both fail.
pub proof fn lemma_png_signature_decode(buf: Seq<u8>)
    requires
        has_prefix(buf, png_magic()),
    ensures
        step_of(initial_view(sniff_format(buf))) == DecodeStep::Attempt(ImageFormat::Png),
        step_of(after_outcome(initial_view(sniff_format(buf)), true)) == DecodeStep::Finished(
            Ok(ImageFormat::Png),
        ),
        step_of(after_outcome(initial_view(sniff_format(buf)), false)) == DecodeStep::Attempt(
            ImageFormat::Jpeg,
        ),
        step_of(after_outcome(after_outcome(initial_view(sniff_format(buf)), false), false))
            == DecodeStep::Finished(Err(DecodeError::AllFormatsFailed)),
{
    lemma_signature_selects_format(buf, ImageFormat::Png, png_magic());
}

/// Whatever the sniffed format, a decode makes at most two attempts, one per
/// format with a decoder, and finishes: with the first format of its plan
/// whose decoder succeeds when there is one, and with `AllFormatsFailed` when
/// no decoder succeeds. A sniffed format whose decoder succeeds is the only
/// attempt.
pub proof fn lemma_decode_outcome(
    sniffed: Option<ImageFormat>,
    succeeds: spec_fn(ImageFormat) -> bool,
)
    ensures
        ({
            let end = run_to_end(initial_view(sniffed), succeeds);
            &&& end.tried.len() <= 2
            &&& step_of(end) is Finished
            &&& (exists|f: ImageFormat| has_adapter(f) && #[trigger] succeeds(f)) ==> (step_of(end) matches DecodeStep::Finished(Ok(g)) && has_adapter(g) && succeeds(g))
            &&& (forall|f: ImageFormat| has_adapter(f) ==> !#[trigger] succeeds(f)) ==> step_of(end)
                == DecodeStep::Finished(Err(DecodeError::AllFormatsFailed))
            &&& sniffed matches Some(f) ==> (has_adapter(f) && succeeds(f) ==> step_of(end)
                == DecodeStep::Finished(Ok(f)) && end.tried.len() == 0)
        }),
{
    let plan = decode_plan(sniffed);
    let s0 = initial_view(sniffed);
    let s1 = after_outcome(s0, succeeds(plan[0]));
    let s2 = after_outcome(s1, succeeds(plan[1]));
    assert(run_to_end(s0, succeeds) == run_to_end(s1, succeeds));
    if !succeeds(plan[0]) {
        assert(run_to_end(s1, succeeds) == run_to_end(s2, succeeds));
        assert(run_to_end(s2, succeeds) == s2);
    } else {
        assert(run_to_end(s1, succeeds) == s1);
    }
    lemma_plan_covers_adapters(sniffed);
    if exists|f: ImageFormat| has_adapter(f) && #[trigger] succeeds(f) {
        let f = choose|f: ImageFormat| has_adapter(f) && #[trigger] succeeds(f);
        assert(plan.contains(f));
    }
}

fn plan_contains(plan: &Vec<ImageFormat>, f: ImageFormat) -> (r: bool)
    ensures
        r == plan@.contains(f),
{
    let mut i: usize = 0;
    while i < plan.len()
        invariant
            i <= plan@.len(),
            forall|j: int| 0 <= j < i ==> plan@[j] != f,
        decreases plan@.len() - i,
    {
        if plan[i] == f {
            return true;
        }
        i += 1;
    }
    false
}

} // verus!
