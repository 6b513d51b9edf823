//! Receipt claims as the recursion programs read and write them: the claim's parts, the
//! SHA-256 digests that commit to them, their word encoding on a program's tape, the
//! merging of a proven claim with an expected one, and the resolution of an assumption.

use vstd::prelude::*;

use super::digest::{digest_bytes, zero_digest, Digest};
use super::error::{ErrorView, RecursionError};
use vstd::string::StringSliceAdditionalSpecFns;

verus! {

/// A value, or the digest that stands for it.
#[derive(Clone, Debug)]
pub enum MaybePruned<T> {
    Value(T),
    Pruned(Digest),
}

/// A machine state: program counter and memory Merkle root.
#[derive(Clone, Copy, Debug)]
pub struct SystemState {
    pub pc: u32,
    pub merkle_root: Digest,
}

/// How a guest execution ended.
#[derive(Clone, Copy, Debug)]
pub enum ExitCode {
    Halted(u32),
    Paused(u32),
    SystemSplit,
    SessionLimit,
}

/// The input of an execution. It holds nothing yet, and no value of it is made outside
/// this module: a claim's input is absent or pruned, and commits to its digest only.
#[derive(Clone, Copy, Debug)]
pub struct Input {
    x: (),
}

/// A claim that a conditional receipt relies upon: a claim digest and the control root
/// under which it must be proven.
#[derive(Clone, Copy, Debug)]
pub struct Assumption {
    pub claim: Digest,
    pub control_root: Digest,
}

/// The list of assumptions of an execution, first to be resolved first.
#[derive(Clone, Debug)]
pub struct Assumptions(pub Vec<MaybePruned<Assumption>>);

/// The output of an execution: its journal and its assumptions.
#[derive(Clone, Debug)]
pub struct Output {
    pub journal: MaybePruned<Vec<u8>>,
    pub assumptions: MaybePruned<Assumptions>,
}

/// What a receipt attests to: the states before and after, the exit code, the input and
/// the output.
#[derive(Clone, Debug)]
pub struct ReceiptClaim {
    pub pre: MaybePruned<SystemState>,
    pub post: MaybePruned<SystemState>,
    pub exit_code: ExitCode,
    pub input: MaybePruned<Option<Input>>,
    pub output: MaybePruned<Option<Output>>,
}

/// The contents of an `Output`.
pub struct OutputView {
    pub journal: MaybePruned<Seq<u8>>,
    pub assumptions: MaybePruned<Seq<MaybePruned<Assumption>>>,
}

/// The contents of a `ReceiptClaim`.
pub struct ClaimView {
    pub pre: MaybePruned<SystemState>,
    pub post: MaybePruned<SystemState>,
    pub exit_code: ExitCode,
    pub input: MaybePruned<Option<Input>>,
    pub output: MaybePruned<Option<OutputView>>,
}

impl View for Output {
    type V = OutputView;

    open spec fn view(&self) -> OutputView {
        OutputView {
            journal: match self.journal {
                MaybePruned::Value(j) => MaybePruned::Value(j@),
                MaybePruned::Pruned(d) => MaybePruned::Pruned(d),
            },
            assumptions: match self.assumptions {
                MaybePruned::Value(a) => MaybePruned::Value(a.0@),
                MaybePruned::Pruned(d) => MaybePruned::Pruned(d),
            },
        }
    }
}

impl View for ReceiptClaim {
    type V = ClaimView;

    open spec fn view(&self) -> ClaimView {
        ClaimView {
            pre: self.pre,
            post: self.post,
            exit_code: self.exit_code,
            input: self.input,
            output: output_view(self.output),
        }
    }
}

/// An optional output that may be pruned, with the output taken by its view.
pub open spec fn output_view(m: MaybePruned<Option<Output>>) -> MaybePruned<Option<OutputView>> {
    match m {
        MaybePruned::Value(Some(o)) => MaybePruned::Value(Some(o@)),
        MaybePruned::Value(None) => MaybePruned::Value(None),
        MaybePruned::Pruned(d) => MaybePruned::Pruned(d),
    }
}

// ---------------------------------------------------------------------------------------
// Digests
// ---------------------------------------------------------------------------------------

/// SHA-256 of a byte string, as eight words.
pub uninterp spec fn sha256_digest(bytes: Seq<u8>) -> Seq<u32>;

/// Hashes a byte string with SHA-256.
///
/// Trusted: `Sha256::hash_bytes` of `risc0_zkp::core::hash::sha::cpu::Impl`; the contract
/// only names the result.
#[verifier::external_body]
pub(crate) fn sha256(bytes: &[u8]) -> (d: Digest)
    ensures
        d@ == sha256_digest(bytes@),
{
    let out = <risc0_zkp::core::hash::sha::cpu::Impl as risc0_zkp::core::hash::sha::Sha256>::hash_bytes(
        bytes,
    );
    Digest { words: (*out).into() }
}

/// The bytes of a list of digests, one after the other.
pub open spec fn digests_bytes(ds: Seq<Seq<u32>>) -> Seq<u8>
    decreases ds.len(),
{
    if ds.len() == 0 {
        Seq::empty()
    } else {
        digests_bytes(ds.drop_last()) + digest_bytes(ds.last())
    }
}

/// The digest of a tagged structure: SHA-256 of the tag's digest, the digests of the
/// structure's parts, its words in little-endian order, and the number of parts as two
/// little-endian bytes.
pub open spec fn tagged_struct(tag: Seq<u8>, down: Seq<Seq<u32>>, data: Seq<u32>) -> Seq<u32> {
    sha256_digest(
        digest_bytes(sha256_digest(tag)) + digests_bytes(down) + digest_bytes(data) + seq![
            (down.len() % 256) as u8,
            (down.len() / 256) as u8,
        ],
    )
}

/// The digest of a tagged list: each element consed onto the digest of the rest, the
/// empty list being the zero digest.
pub open spec fn tagged_list(tag: Seq<u8>, ds: Seq<Seq<u32>>) -> Seq<u32>
    decreases ds.len(),
{
    if ds.len() == 0 {
        zero_digest()
    } else {
        tagged_struct(tag, seq![ds[0], tagged_list(tag, ds.drop_first())], Seq::empty())
    }
}

pub open spec fn state_tag() -> Seq<u8> {
    "risc0.SystemState".spec_bytes()
}

pub open spec fn assumption_tag() -> Seq<u8> {
    "risc0.Assumption".spec_bytes()
}

pub open spec fn assumptions_tag() -> Seq<u8> {
    "risc0.Assumptions".spec_bytes()
}

pub open spec fn output_tag() -> Seq<u8> {
    "risc0.Output".spec_bytes()
}

pub open spec fn claim_tag() -> Seq<u8> {
    "risc0.ReceiptClaim".spec_bytes()
}

/// The digest of a machine state.
pub open spec fn state_digest(s: SystemState) -> Seq<u32> {
    tagged_struct(state_tag(), seq![s.merkle_root@], seq![s.pc])
}

/// The digest of a machine state that may be pruned.
pub open spec fn maybe_state_digest(m: MaybePruned<SystemState>) -> Seq<u32> {
    match m {
        MaybePruned::Value(s) => state_digest(s),
        MaybePruned::Pruned(d) => d@,
    }
}

/// The digest of an input that may be pruned: an absent input commits to the zero digest.
pub open spec fn maybe_input_digest(m: MaybePruned<Option<Input>>) -> Seq<u32> {
    match m {
        MaybePruned::Value(_) => zero_digest(),
        MaybePruned::Pruned(d) => d@,
    }
}

/// The digest of an assumption.
pub open spec fn assumption_digest(a: Assumption) -> Seq<u32> {
    tagged_struct(assumption_tag(), seq![a.claim@, a.control_root@], Seq::empty())
}

/// The digest of an assumption that may be pruned.
pub open spec fn maybe_assumption_digest(m: MaybePruned<Assumption>) -> Seq<u32> {
    match m {
        MaybePruned::Value(a) => assumption_digest(a),
        MaybePruned::Pruned(d) => d@,
    }
}

/// The digest of a list of assumptions.
pub open spec fn assumptions_digest(list: Seq<MaybePruned<Assumption>>) -> Seq<u32> {
    tagged_list(assumptions_tag(), list.map_values(|m: MaybePruned<Assumption>| maybe_assumption_digest(m)))
}

/// The digest of an output.
pub open spec fn output_digest(o: OutputView) -> Seq<u32> {
    let j = match o.journal {
        MaybePruned::Value(bytes) => sha256_digest(bytes),
        MaybePruned::Pruned(d) => d@,
    };
    let a = match o.assumptions {
        MaybePruned::Value(list) => assumptions_digest(list),
        MaybePruned::Pruned(d) => d@,
    };
    tagged_struct(output_tag(), seq![j, a], Seq::empty())
}

/// The digest of an optional output that may be pruned; no output commits to zero.
pub open spec fn maybe_output_digest(m: MaybePruned<Option<OutputView>>) -> Seq<u32> {
    match m {
        MaybePruned::Value(Some(o)) => output_digest(o),
        MaybePruned::Value(None) => zero_digest(),
        MaybePruned::Pruned(d) => d@,
    }
}

/// The system and user parts of an exit code.
pub open spec fn exit_pair(e: ExitCode) -> (u32, u32) {
    match e {
        ExitCode::Halted(u) => (0, u),
        ExitCode::Paused(u) => (1, u),
        ExitCode::SystemSplit => (2, 0),
        ExitCode::SessionLimit => (2, 2),
    }
}

/// The digest of a receipt claim.
pub open spec fn claim_digest(c: ClaimView) -> Seq<u32> {
    tagged_struct(
        claim_tag(),
        seq![
            maybe_input_digest(c.input),
            maybe_state_digest(c.pre),
            maybe_state_digest(c.post),
            maybe_output_digest(c.output),
        ],
        seq![exit_pair(c.exit_code).0, exit_pair(c.exit_code).1],
    )
}

/// Appends the four little-endian bytes of each word.
fn push_words(bytes: &mut Vec<u8>, words: &[u32])
    ensures
        final(bytes)@ == old(bytes)@ + digest_bytes(words@),
{
    let mut i: usize = 0;
    while i < words.len()
        invariant
            0 <= i <= words@.len(),
            bytes@ == old(bytes)@ + digest_bytes(words@.subrange(0, i as int)),
        decreases words@.len() - i,
    {
        let w = words[i];
        bytes.push((w & 0xff) as u8);
        bytes.push(((w >> 8) & 0xff) as u8);
        bytes.push(((w >> 16) & 0xff) as u8);
        bytes.push((w >> 24) as u8);
        assert(words@.subrange(0, i + 1).drop_last() =~= words@.subrange(0, i as int));
        assert(bytes@ =~= old(bytes)@ + digest_bytes(words@.subrange(0, i + 1)));
        i = i + 1;
    }
    assert(words@.subrange(0, i as int) =~= words@);
}

/// The digest of a tagged structure with the given parts and words.
pub fn tagged_struct_digest(tag: &str, down: &[Digest], data: &[u32]) -> (d: Digest)
    requires
        down@.len() < 65536,
    ensures
        d@ == tagged_struct(tag.spec_bytes(), down@.map_values(|x: Digest| x@), data@),
{
    let ghost downs = down@.map_values(|x: Digest| x@);
    let tag_digest = sha256(tag.as_bytes());
    let mut bytes: Vec<u8> = Vec::new();
    push_words(&mut bytes, tag_digest.as_words());
    let ghost start = bytes@;
    let mut i: usize = 0;
    while i < down.len()
        invariant
            0 <= i <= down@.len(),
            downs == down@.map_values(|x: Digest| x@),
            bytes@ == start + digests_bytes(downs.subrange(0, i as int)),
        decreases down@.len() - i,
    {
        push_words(&mut bytes, down[i].as_words());
        assert(downs.subrange(0, i + 1).drop_last() =~= downs.subrange(0, i as int));
        assert(bytes@ =~= start + digests_bytes(downs.subrange(0, i + 1)));
        i = i + 1;
    }
    assert(downs.subrange(0, i as int) =~= downs);
    push_words(&mut bytes, data);
    let count = down.len();
    bytes.push((count % 256) as u8);
    bytes.push((count / 256) as u8);
    assert(bytes@ =~= digest_bytes(tag_digest@) + digests_bytes(downs) + digest_bytes(data@) + seq![
        (downs.len() % 256) as u8,
        (downs.len() / 256) as u8,
    ]);
    sha256(bytes.as_slice())
}

impl SystemState {
    /// The digest of the state.
    pub fn digest(&self) -> (d: Digest)
        ensures
            d@ == state_digest(*self),
    {
        let down = [self.merkle_root];
        let data = [self.pc];
        let d = tagged_struct_digest("risc0.SystemState", down.as_slice(), data.as_slice());
        assert(down@.map_values(|x: Digest| x@) =~= seq![self.merkle_root@]);
        assert(data@ =~= seq![self.pc]);
        d
    }
}

impl Assumption {
    /// The digest of the assumption.
    pub fn digest(&self) -> (d: Digest)
        ensures
            d@ == assumption_digest(*self),
    {
        let down = [self.claim, self.control_root];
        let data: [u32; 0] = [];
        let d = tagged_struct_digest("risc0.Assumption", down.as_slice(), data.as_slice());
        assert(down@.map_values(|x: Digest| x@) =~= seq![self.claim@, self.control_root@]);
        assert(data@ =~= Seq::<u32>::empty());
        d
    }
}

/// The digest of an assumption that may be pruned.
pub fn maybe_assumption_digest_of(m: &MaybePruned<Assumption>) -> (d: Digest)
    ensures
        d@ == maybe_assumption_digest(*m),
{
    match m {
        MaybePruned::Value(a) => a.digest(),
        MaybePruned::Pruned(d) => *d,
    }
}

/// The digest of a list of assumptions that may be pruned, each consed in turn onto the
/// digest of the rest.
pub fn assumptions_list_digest(list: &Vec<MaybePruned<Assumption>>) -> (d: Digest)
    ensures
        d@ == assumptions_digest(list@),
{
    let ghost ds = list@.map_values(|m: MaybePruned<Assumption>| maybe_assumption_digest(m));
    let mut acc = Digest::zero();
    let mut i: usize = list.len();
    assert(ds.subrange(i as int, ds.len() as int) =~= Seq::<Seq<u32>>::empty());
    while i > 0
        invariant
            0 <= i <= list@.len(),
            ds == list@.map_values(|m: MaybePruned<Assumption>| maybe_assumption_digest(m)),
            acc@ == tagged_list(assumptions_tag(), ds.subrange(i as int, ds.len() as int)),
        decreases i,
    {
        let head = maybe_assumption_digest_of(&list[i - 1]);
        let down = [head, acc];
        let data: [u32; 0] = [];
        let next = tagged_struct_digest("risc0.Assumptions", down.as_slice(), data.as_slice());
        proof {
            let rest = ds.subrange(i as int, ds.len() as int);
            let longer = ds.subrange(i - 1, ds.len() as int);
            assert(longer.drop_first() =~= rest);
            assert(longer[0] == head@);
            assert(down@.map_values(|x: Digest| x@) =~= seq![longer[0], tagged_list(assumptions_tag(), rest)]);
            assert(data@ =~= Seq::<u32>::empty());
        }
        acc = next;
        i = i - 1;
    }
    assert(ds.subrange(0, ds.len() as int) =~= ds);
    acc
}

impl Output {
    /// The digest of the output.
    pub fn digest(&self) -> (d: Digest)
        ensures
            d@ == output_digest(self@),
    {
        let j = match &self.journal {
            MaybePruned::Value(bytes) => sha256(bytes.as_slice()),
            MaybePruned::Pruned(d) => *d,
        };
        let a = match &self.assumptions {
            MaybePruned::Value(list) => assumptions_list_digest(&list.0),
            MaybePruned::Pruned(d) => *d,
        };
        let down = [j, a];
        let data: [u32; 0] = [];
        let d = tagged_struct_digest("risc0.Output", down.as_slice(), data.as_slice());
        assert(down@.map_values(|x: Digest| x@) =~= seq![j@, a@]);
        assert(data@ =~= Seq::<u32>::empty());
        d
    }
}

/// The digest of an optional output that may be pruned.
pub fn maybe_output_digest_of(m: &MaybePruned<Option<Output>>) -> (d: Digest)
    ensures
        d@ == maybe_output_digest(output_view(*m)),
{
    match m {
        MaybePruned::Value(Some(o)) => o.digest(),
        MaybePruned::Value(None) => Digest::zero(),
        MaybePruned::Pruned(d) => *d,
    }
}

/// The digest of an input that may be pruned.
pub fn maybe_input_digest_of(m: &MaybePruned<Option<Input>>) -> (d: Digest)
    ensures
        d@ == maybe_input_digest(*m),
{
    match m {
        MaybePruned::Value(_) => Digest::zero(),
        MaybePruned::Pruned(d) => *d,
    }
}

/// The digest of a machine state that may be pruned.
pub fn maybe_state_digest_of(m: &MaybePruned<SystemState>) -> (d: Digest)
    ensures
        d@ == maybe_state_digest(*m),
{
    match m {
        MaybePruned::Value(s) => s.digest(),
        MaybePruned::Pruned(d) => *d,
    }
}

/// The system and user parts of an exit code.
pub fn exit_code_pair(e: ExitCode) -> (r: (u32, u32))
    ensures
        r == exit_pair(e),
{
    match e {
        ExitCode::Halted(u) => (0, u),
        ExitCode::Paused(u) => (1, u),
        ExitCode::SystemSplit => (2, 0),
        ExitCode::SessionLimit => (2, 2),
    }
}

impl ReceiptClaim {
    /// The digest of the claim.
    pub fn digest(&self) -> (d: Digest)
        ensures
            d@ == claim_digest(self@),
    {
        let down = [
            maybe_input_digest_of(&self.input),
            maybe_state_digest_of(&self.pre),
            maybe_state_digest_of(&self.post),
            maybe_output_digest_of(&self.output),
        ];
        let (sys, user) = exit_code_pair(self.exit_code);
        let data = [sys, user];
        let d = tagged_struct_digest("risc0.ReceiptClaim", down.as_slice(), data.as_slice());
        assert(down@.map_values(|x: Digest| x@) =~= seq![
            maybe_input_digest(self@.input),
            maybe_state_digest(self@.pre),
            maybe_state_digest(self@.post),
            maybe_output_digest(self@.output),
        ]);
        assert(data@ =~= seq![exit_pair(self@.exit_code).0, exit_pair(self@.exit_code).1]);
        d
    }
}

// ---------------------------------------------------------------------------------------
// Word encoding
// ---------------------------------------------------------------------------------------

/// Each word split into its low 16 bits followed by its high 16 bits.
pub open spec fn split_halves(ws: Seq<u32>) -> Seq<u32> {
    Seq::new(
        2 * ws.len(),
        |i: int|
            if i % 2 == 0 {
                ws[i / 2] & 0xffffu32
            } else {
                ws[i / 2] >> 16u32
            },
    )
}

/// The four bytes of a word, least significant first, one byte per word.
pub open spec fn byte_words(w: u32) -> Seq<u32> {
    seq![w & 0xffu32, (w >> 8u32) & 0xffu32, (w >> 16u32) & 0xffu32, w >> 24u32]
}

/// The words of a machine state: its program counter byte by byte, then its Merkle root
/// in half words.
pub open spec fn state_words(s: SystemState) -> Seq<u32> {
    byte_words(s.pc) + split_halves(s.merkle_root@)
}

/// The words that the recursion programs read for a claim: the input's digest, the two
/// states, the exit code's parts and the output's digest. Both states must be present.
pub open spec fn claim_words(c: ClaimView) -> Option<Seq<u32>> {
    match (c.pre, c.post) {
        (MaybePruned::Value(pre), MaybePruned::Value(post)) => Some(
            split_halves(maybe_input_digest(c.input)) + state_words(pre) + state_words(post) + seq![
                exit_pair(c.exit_code).0,
                exit_pair(c.exit_code).1,
            ] + split_halves(maybe_output_digest(c.output)),
        ),
        _ => None,
    }
}

/// Appends the half words of a digest.
pub fn push_halves(v: &mut Vec<u32>, d: &Digest)
    ensures
        final(v)@ == old(v)@ + split_halves(d@),
{
    let words = d.as_words();
    let mut i: usize = 0;
    while i < words.len()
        invariant
            0 <= i <= words@.len(),
            v@ == old(v)@ + split_halves(words@.subrange(0, i as int)),
        decreases words@.len() - i,
    {
        let x = words[i];
        v.push(x & 0xffff);
        v.push(x >> 16);
        assert(v@ =~= old(v)@ + split_halves(words@.subrange(0, i + 1)));
        i = i + 1;
    }
    assert(words@.subrange(0, i as int) =~= words@);
}

/// Appends the words of a machine state.
fn push_state(v: &mut Vec<u32>, s: &SystemState)
    ensures
        final(v)@ == old(v)@ + state_words(*s),
{
    let pc = s.pc;
    v.push(pc & 0xff);
    v.push((pc >> 8) & 0xff);
    v.push((pc >> 16) & 0xff);
    v.push(pc >> 24);
    let ghost mid = v@;
    push_halves(v, &s.merkle_root);
    assert(v@ =~= old(v)@ + state_words(*s));
}

impl ReceiptClaim {
    /// The claim's words as the recursion programs read them; refused when a state is pruned.
    pub fn encode(&self) -> (r: Result<Vec<u32>, RecursionError>)
        ensures
            r is Ok <==> claim_words(self@) is Some,
            r matches Ok(w) ==> Some(w@) == claim_words(self@) && w@.len() == CLAIM_WORDS,
            r matches Err(e) ==> e == RecursionError::PrunedValue,
    {
        let (pre, post) = match (&self.pre, &self.post) {
            (MaybePruned::Value(pre), MaybePruned::Value(post)) => (pre, post),
            _ => return Err(RecursionError::PrunedValue),
        };
        let mut v: Vec<u32> = Vec::new();
        push_halves(&mut v, &maybe_input_digest_of(&self.input));
        push_state(&mut v, pre);
        push_state(&mut v, post);
        let (sys, user) = exit_code_pair(self.exit_code);
        v.push(sys);
        v.push(user);
        push_halves(&mut v, &maybe_output_digest_of(&self.output));
        assert(Some(v@) == claim_words(self@));
        Ok(v)
    }
}

// ---------------------------------------------------------------------------------------
// Resolving an assumption
// ---------------------------------------------------------------------------------------

/// The digest of a journal that may be pruned.
pub open spec fn maybe_journal_digest(m: MaybePruned<Seq<u8>>) -> Seq<u32> {
    match m {
        MaybePruned::Value(bytes) => sha256_digest(bytes),
        MaybePruned::Pruned(d) => d@,
    }
}

/// What resolving the head assumption of the conditional claim `c` with the digest
/// `resolved` of a proven claim gives: `c` with that head removed from its assumptions,
/// the digest of the remaining assumptions, and the digest of `c`'s journal. Refused when
/// the output is pruned or absent, the assumptions are pruned or empty, or the head is
/// not the assumption proven.
pub open spec fn resolution(c: ClaimView, resolved: Seq<u32>) -> Result<
    (ClaimView, Seq<u32>, Seq<u32>),
    ErrorView,
> {
    match c.output {
        MaybePruned::Pruned(_) => Err(ErrorView::OutputPruned),
        MaybePruned::Value(None) => Err(ErrorView::OutputEmpty),
        MaybePruned::Value(Some(o)) => match o.assumptions {
            MaybePruned::Pruned(_) => Err(ErrorView::AssumptionsPruned),
            MaybePruned::Value(list) => if list.len() == 0 {
                Err(ErrorView::NoAssumptions)
            } else if maybe_assumption_digest(list[0]) != resolved {
                Err(ErrorView::AssumptionMismatch { resolved, head: maybe_assumption_digest(list[0]) })
            } else {
                let tail = list.drop_first();
                Ok(
                    (
                        ClaimView {
                            pre: c.pre,
                            post: c.post,
                            exit_code: c.exit_code,
                            input: c.input,
                            output: MaybePruned::Value(
                                Some(
                                    OutputView {
                                        journal: o.journal,
                                        assumptions: MaybePruned::Value(tail),
                                    },
                                ),
                            ),
                        },
                        assumptions_digest(tail),
                        maybe_journal_digest(o.journal),
                    ),
                )
            },
        },
    }
}

/// Law: resolving the head assumption of a claim keeps its states, exit code, input and
/// journal, and leaves exactly the assumptions after the head, which it commits to; when
/// the head was the only assumption, the claim becomes unconditional (its assumptions
/// commit to the digest of the empty list, the zero digest).
pub proof fn lemma_resolution_removes_head(c: ClaimView, resolved: Seq<u32>)
    requires
        resolution(c, resolved) is Ok,
    ensures
        ({
            let (rc, tail, journal) = resolution(c, resolved)->Ok_0;
            &&& rc.pre == c.pre
            &&& rc.post == c.post
            &&& rc.exit_code == c.exit_code
            &&& rc.input == c.input
            &&& c.output matches MaybePruned::Value(Some(o)) && o.assumptions matches MaybePruned::Value(list)
                && list.len() > 0 && maybe_assumption_digest(list[0]) == resolved && rc.output
                == MaybePruned::Value(
                Some(OutputView { journal: o.journal, assumptions: MaybePruned::Value(list.drop_first()) }),
            ) && tail == assumptions_digest(list.drop_first()) && journal == maybe_journal_digest(o.journal)
                && (list.len() == 1 ==> tail == zero_digest())
        }),
{
    let o = c.output->Value_0->Some_0;
    let list = o.assumptions->Value_0;
    if list.len() == 1 {
        assert(list.drop_first().len() == 0);
        assert(list.drop_first().map_values(|m: MaybePruned<Assumption>| maybe_assumption_digest(m)).len() == 0);
    }
}

/// A copy of a state that may be pruned.
pub fn copy_state(m: &MaybePruned<SystemState>) -> (r: MaybePruned<SystemState>)
    ensures
        r == *m,
{
    match m {
        MaybePruned::Value(s) => MaybePruned::Value(*s),
        MaybePruned::Pruned(d) => MaybePruned::Pruned(*d),
    }
}

/// A copy of an input that may be pruned.
pub fn copy_input(m: &MaybePruned<Option<Input>>) -> (r: MaybePruned<Option<Input>>)
    ensures
        r == *m,
{
    match m {
        MaybePruned::Value(None) => MaybePruned::Value(None),
        MaybePruned::Value(Some(i)) => MaybePruned::Value(Some(*i)),
        MaybePruned::Pruned(d) => MaybePruned::Pruned(*d),
    }
}

/// A copy of an assumption that may be pruned.
pub fn copy_assumption(m: &MaybePruned<Assumption>) -> (r: MaybePruned<Assumption>)
    ensures
        r == *m,
{
    match m {
        MaybePruned::Value(a) => MaybePruned::Value(*a),
        MaybePruned::Pruned(d) => MaybePruned::Pruned(*d),
    }
}

/// A copy of a byte vector.
pub fn copy_bytes(v: &Vec<u8>) -> (r: Vec<u8>)
    ensures
        r@ == v@,
{
    let mut r: Vec<u8> = Vec::new();
    let mut i: usize = 0;
    while i < v.len()
        invariant
            0 <= i <= v@.len(),
            r@ == v@.subrange(0, i as int),
        decreases v@.len() - i,
    {
        r.push(v[i]);
        assert(r@ =~= v@.subrange(0, i + 1));
        i = i + 1;
    }
    assert(r@ =~= v@);
    r
}

/// A copy of a journal that may be pruned.
pub fn copy_journal(m: &MaybePruned<Vec<u8>>) -> (r: MaybePruned<Vec<u8>>)
    ensures
        match (r, *m) {
            (MaybePruned::Value(a), MaybePruned::Value(b)) => a@ == b@,
            (MaybePruned::Pruned(a), MaybePruned::Pruned(b)) => a == b,
            _ => false,
        },
{
    match m {
        MaybePruned::Value(b) => MaybePruned::Value(copy_bytes(b)),
        MaybePruned::Pruned(d) => MaybePruned::Pruned(*d),
    }
}

/// The assumptions from position `from` on.
fn assumptions_from(list: &Vec<MaybePruned<Assumption>>, from: usize) -> (r: Vec<MaybePruned<Assumption>>)
    requires
        from <= list@.len(),
    ensures
        r@ == list@.subrange(from as int, list@.len() as int),
{
    let mut r: Vec<MaybePruned<Assumption>> = Vec::new();
    let mut i: usize = from;
    while i < list.len()
        invariant
            from <= i <= list@.len(),
            r@ == list@.subrange(from as int, i as int),
        decreases list@.len() - i,
    {
        r.push(copy_assumption(&list[i]));
        assert(r@ =~= list@.subrange(from as int, i + 1));
        i = i + 1;
    }
    r
}

/// The digest of a journal that may be pruned.
pub fn journal_digest_of(m: &MaybePruned<Vec<u8>>) -> (d: Digest)
    ensures
        d@ == maybe_journal_digest(
            match *m {
                MaybePruned::Value(b) => MaybePruned::Value(b@),
                MaybePruned::Pruned(d) => MaybePruned::Pruned(d),
            },
        ),
        m matches MaybePruned::Value(b) ==> d@ == sha256_digest(b@),
{
    match m {
        MaybePruned::Value(bytes) => sha256(bytes.as_slice()),
        MaybePruned::Pruned(d) => *d,
    }
}

/// Resolves the head assumption of the conditional claim `c` with the digest `resolved`
/// of a proven claim: gives `c` with that head removed, the digest of the remaining
/// assumptions, and the journal's digest.
pub fn resolve_claim(c: &ReceiptClaim, resolved: &Digest) -> (r: Result<(ReceiptClaim, Digest, Digest), RecursionError>)
    ensures
        match resolution(c@, resolved@) {
            Ok((claim, tail, journal)) => r matches Ok((rc, t, j)) && rc@ == claim && t@ == tail
                && j@ == journal,
            Err(e) => r matches Err(x) && x@ == e,
        },
{
    let o = match &c.output {
        MaybePruned::Pruned(_) => return Err(RecursionError::OutputPruned),
        MaybePruned::Value(None) => return Err(RecursionError::OutputEmpty),
        MaybePruned::Value(Some(o)) => o,
    };
    let list = match &o.assumptions {
        MaybePruned::Pruned(_) => return Err(RecursionError::AssumptionsPruned),
        MaybePruned::Value(list) => &list.0,
    };
    if list.len() == 0 {
        return Err(RecursionError::NoAssumptions);
    }
    let head = maybe_assumption_digest_of(&list[0]);
    if !head.equals(resolved) {
        return Err(RecursionError::AssumptionMismatch { resolved: *resolved, head });
    }
    let tail = assumptions_from(list, 1);
    assert(tail@ =~= list@.drop_first());
    let tail_digest = assumptions_list_digest(&tail);
    let journal_digest = journal_digest_of(&o.journal);
    let claim = ReceiptClaim {
        pre: copy_state(&c.pre),
        post: copy_state(&c.post),
        exit_code: c.exit_code,
        input: copy_input(&c.input),
        output: MaybePruned::Value(
            Some(Output { journal: copy_journal(&o.journal), assumptions: MaybePruned::Value(Assumptions(tail)) }),
        ),
    };
    proof {
        assert(claim@.output == MaybePruned::Value(
            Some(OutputView { journal: o@.journal, assumptions: MaybePruned::Value(list@.drop_first()) }),
        ));
    }
    Ok((claim, tail_digest, journal_digest))
}

// ---------------------------------------------------------------------------------------
// Decoding a claim from a program's output, and merging it with the expected claim
// ---------------------------------------------------------------------------------------

/// The number of words that a claim takes in a recursion program's output.
pub const CLAIM_WORDS: usize = 74;

/// The word whose low and high 16 bits are the low 16 bits of `lo` and of `hi`.
pub open spec fn halves_word(lo: u32, hi: u32) -> u32 {
    (lo & 0xffffu32) | ((hi & 0xffffu32) << 16u32)
}

/// The digest written as sixteen half words, the low half of each word first.
pub open spec fn joined_halves(ws: Seq<u32>) -> Seq<u32> {
    Seq::new(8, |i: int| halves_word(ws[2 * i], ws[2 * i + 1]))
}

/// The word whose bytes, least significant first, are the low bytes of four words.
pub open spec fn bytes_word(a: u32, b: u32, c: u32, d: u32) -> u32 {
    (a & 0xffu32) | ((b & 0xffu32) << 8u32) | ((c & 0xffu32) << 16u32) | ((d & 0xffu32) << 24u32)
}

/// The exit code that the system part `sys` and the user part `user` stand for, if
/// any: the system part alone decides, and a split reads no user part.
pub open spec fn exit_from_pair(sys: u32, user: u32) -> Option<ExitCode> {
    if sys == 0 {
        Some(ExitCode::Halted(user))
    } else if sys == 1 {
        Some(ExitCode::Paused(user))
    } else if sys == 2 {
        Some(ExitCode::SystemSplit)
    } else {
        None
    }
}

/// The words from `from` to `to` are half words: each fits in 16 bits.
pub open spec fn half_words(ws: Seq<u32>, from: int, to: int) -> bool {
    forall|i: int| from <= i < to ==> #[trigger] ws[i] < 0x10000
}

/// The output words hold a claim: there are enough of them, the digests are written in
/// half words, and the exit code's system part names an exit code.
pub open spec fn decodable(ws: Seq<u32>) -> bool {
    &&& ws.len() >= 74
    &&& half_words(ws, 0, 16)
    &&& half_words(ws, 20, 36)
    &&& half_words(ws, 40, 56)
    &&& half_words(ws, 58, 74)
    &&& exit_from_pair(ws[56], ws[57]) is Some
}

/// `s` is the machine state written at position `at` of the words: the program counter
/// byte by byte, then the Merkle root in half words.
pub open spec fn decoded_state(ws: Seq<u32>, at: int, s: SystemState) -> bool {
    &&& s.pc == bytes_word(ws[at], ws[at + 1], ws[at + 2], ws[at + 3])
    &&& s.merkle_root@ == joined_halves(ws.subrange(at + 4, at + 20))
}

/// `c` is the claim that the output words hold: the input's digest, the two states, the
/// exit code's parts and the output's digest, in the order in which `claim_words` writes
/// them. The input and output are known by their digests only.
pub open spec fn decodes_to(ws: Seq<u32>, c: ClaimView) -> bool {
    &&& c.input matches MaybePruned::Pruned(d) && d@ == joined_halves(ws.subrange(0, 16))
    &&& c.pre matches MaybePruned::Value(s) && decoded_state(ws, 16, s)
    &&& c.post matches MaybePruned::Value(s) && decoded_state(ws, 36, s)
    &&& exit_from_pair(ws[56], ws[57]) == Some(c.exit_code)
    &&& c.output matches MaybePruned::Pruned(d) && d@ == joined_halves(ws.subrange(58, 74))
}

/// Whether the sixteen words from `at` are half words.
fn halves_fit(ws: &[u32], at: usize) -> (r: bool)
    requires
        at + 16 <= ws@.len(),
    ensures
        r == half_words(ws@, at as int, at + 16),
{
    let n: usize = ws.len();
    assert(at + 16 <= n);
    let end: usize = at + 16;
    let mut i: usize = at;
    while i < end
        invariant
            at <= i <= end,
            end == at + 16,
            end <= ws@.len(),
            half_words(ws@, at as int, i as int),
        decreases end - i,
    {
        if ws[i] >= 0x10000 {
            return false;
        }
        i = i + 1;
    }
    true
}

/// The word at `at` and the next, read as the low and high halves of a word.
fn halves_at(ws: &[u32], at: usize) -> (w: u32)
    requires
        at + 1 < ws@.len(),
    ensures
        w == halves_word(ws@[at as int], ws@[at + 1]),
{
    (ws[at] & 0xffff) | ((ws[at + 1] & 0xffff) << 16)
}

/// The digest written as sixteen half words from position `at`.
fn read_halves(ws: &[u32], at: usize) -> (d: Digest)
    requires
        at + 16 <= ws@.len(),
    ensures
        d@ == joined_halves(ws@.subrange(at as int, at + 16)),
{
    let n: usize = ws.len();
    assert(at + 16 <= n);
    let d = Digest {
        words: [
            halves_at(ws, at),
            halves_at(ws, at + 2),
            halves_at(ws, at + 4),
            halves_at(ws, at + 6),
            halves_at(ws, at + 8),
            halves_at(ws, at + 10),
            halves_at(ws, at + 12),
            halves_at(ws, at + 14),
        ],
    };
    assert(d@ =~= joined_halves(ws@.subrange(at as int, at + 16)));
    d
}

/// The machine state written from position `at`.
fn read_state(ws: &[u32], at: usize) -> (s: SystemState)
    requires
        at + 20 <= ws@.len(),
    ensures
        decoded_state(ws@, at as int, s),
{
    let n: usize = ws.len();
    assert(at + 20 <= n);
    let pc = (ws[at] & 0xff) | ((ws[at + 1] & 0xff) << 8) | ((ws[at + 2] & 0xff) << 16) | ((ws[at + 3] & 0xff) << 24);
    SystemState { pc, merkle_root: read_halves(ws, at + 4) }
}

/// The exit code with the given system and user parts; refused when there is none.
pub fn exit_code_from_pair(sys: u32, user: u32) -> (r: Result<ExitCode, RecursionError>)
    ensures
        match exit_from_pair(sys, user) {
            Some(e) => r matches Ok(x) && x == e,
            None => r matches Err(x) && x == RecursionError::DecodeFailed,
        },
{
    if sys == 0 {
        Ok(ExitCode::Halted(user))
    } else if sys == 1 {
        Ok(ExitCode::Paused(user))
    } else if sys == 2 {
        Ok(ExitCode::SystemSplit)
    } else {
        Err(RecursionError::DecodeFailed)
    }
}

impl ReceiptClaim {
    /// The claim that a recursion program wrote at the start of its output; refused when
    /// the output is too short, a digest's half word does not fit in 16 bits, or the exit
    /// code's system part names no exit code.
    pub fn decode(ws: &[u32]) -> (r: Result<ReceiptClaim, RecursionError>)
        ensures
            r is Ok <==> decodable(ws@),
            r matches Ok(c) ==> decodes_to(ws@, c@),
            r matches Err(e) ==> e == RecursionError::DecodeFailed,
    {
        if ws.len() < CLAIM_WORDS || !halves_fit(ws, 0) || !halves_fit(ws, 20) || !halves_fit(ws, 40)
            || !halves_fit(ws, 58) {
            return Err(RecursionError::DecodeFailed);
        }
        let input = read_halves(ws, 0);
        let pre = read_state(ws, 16);
        let post = read_state(ws, 36);
        let exit_code = exit_code_from_pair(ws[56], ws[57])?;
        let output = read_halves(ws, 58);
        Ok(ReceiptClaim {
            pre: MaybePruned::Value(pre),
            post: MaybePruned::Value(post),
            exit_code,
            input: MaybePruned::Pruned(input),
            output: MaybePruned::Pruned(output),
        })
    }
}

/// Merging two states that may be pruned: two values must be equal, and otherwise the
/// digests must agree; the value is kept where there is one.
pub open spec fn state_merge(a: MaybePruned<SystemState>, b: MaybePruned<SystemState>) -> Option<
    MaybePruned<SystemState>,
> {
    match (a, b) {
        (MaybePruned::Value(x), MaybePruned::Value(y)) => if x.pc == y.pc && x.merkle_root@ == y.merkle_root@ {
            Some(a)
        } else {
            None
        },
        (MaybePruned::Pruned(_), MaybePruned::Value(_)) => if maybe_state_digest(a) == maybe_state_digest(b) {
            Some(b)
        } else {
            None
        },
        _ => if maybe_state_digest(a) == maybe_state_digest(b) {
            Some(a)
        } else {
            None
        },
    }
}

/// Merging a claim `d` decoded from a program's output, whose input and output are known
/// by their digests only, with the claim `e` that the run was meant to prove: the exit
/// codes must be equal, the states must merge, and the digests of the inputs and of the
/// outputs must agree. The merged claim has the merged states and `e`'s input and output.
pub open spec fn decoded_merge(d: ClaimView, e: ClaimView) -> Option<ClaimView> {
    if d.exit_code != e.exit_code {
        None
    } else if maybe_input_digest(d.input) != maybe_input_digest(e.input) {
        None
    } else if maybe_output_digest(d.output) != maybe_output_digest(e.output) {
        None
    } else {
        match (state_merge(d.pre, e.pre), state_merge(d.post, e.post)) {
            (Some(pre), Some(post)) => Some(
                ClaimView { pre, post, exit_code: d.exit_code, input: e.input, output: e.output },
            ),
            _ => None,
        }
    }
}

/// Merges two states that may be pruned.
fn merge_state(a: &MaybePruned<SystemState>, b: &MaybePruned<SystemState>) -> (r: Option<MaybePruned<SystemState>>)
    ensures
        r == state_merge(*a, *b),
{
    match (a, b) {
        (MaybePruned::Value(x), MaybePruned::Value(y)) => {
            if x.pc == y.pc && x.merkle_root.equals(&y.merkle_root) {
                Some(copy_state(a))
            } else {
                None
            }
        },
        (MaybePruned::Pruned(_), MaybePruned::Value(_)) => {
            if maybe_state_digest_of(a).equals(&maybe_state_digest_of(b)) {
                Some(copy_state(b))
            } else {
                None
            }
        },
        _ => {
            if maybe_state_digest_of(a).equals(&maybe_state_digest_of(b)) {
                Some(copy_state(a))
            } else {
                None
            }
        },
    }
}

/// Whether two exit codes are equal.
pub fn exit_codes_equal(a: ExitCode, b: ExitCode) -> (r: bool)
    ensures
        r == (a == b),
{
    match (a, b) {
        (ExitCode::Halted(x), ExitCode::Halted(y)) => x == y,
        (ExitCode::Paused(x), ExitCode::Paused(y)) => x == y,
        (ExitCode::SystemSplit, ExitCode::SystemSplit) => true,
        (ExitCode::SessionLimit, ExitCode::SessionLimit) => true,
        _ => false,
    }
}

/// A copy of a list of assumptions that may be pruned.
fn copy_assumptions(m: &MaybePruned<Assumptions>) -> (r: MaybePruned<Assumptions>)
    ensures
        match (r, *m) {
            (MaybePruned::Value(a), MaybePruned::Value(b)) => a.0@ == b.0@,
            (MaybePruned::Pruned(a), MaybePruned::Pruned(b)) => a == b,
            _ => false,
        },
{
    match m {
        MaybePruned::Value(list) => MaybePruned::Value(Assumptions(assumptions_from(&list.0, 0))),
        MaybePruned::Pruned(d) => MaybePruned::Pruned(*d),
    }
}

/// A copy of an optional output that may be pruned.
pub fn copy_output(m: &MaybePruned<Option<Output>>) -> (r: MaybePruned<Option<Output>>)
    ensures
        output_view(r) == output_view(*m),
{
    match m {
        MaybePruned::Value(Some(o)) => {
            let c = Output { journal: copy_journal(&o.journal), assumptions: copy_assumptions(&o.assumptions) };
            assert(c@ == o@);
            MaybePruned::Value(Some(c))
        },
        MaybePruned::Value(None) => MaybePruned::Value(None),
        MaybePruned::Pruned(d) => MaybePruned::Pruned(*d),
    }
}

impl ReceiptClaim {
    /// A copy of the claim.
    pub fn duplicate(&self) -> (r: ReceiptClaim)
        ensures
            r@ == self@,
    {
        ReceiptClaim {
            pre: copy_state(&self.pre),
            post: copy_state(&self.post),
            exit_code: self.exit_code,
            input: copy_input(&self.input),
            output: copy_output(&self.output),
        }
    }

    /// Merges this claim, decoded from a recursion program's output, with the claim that
    /// the run was meant to prove; refused when they disagree.
    pub fn merge_decoded(&self, expected: &ReceiptClaim) -> (r: Result<ReceiptClaim, RecursionError>)
        requires
            self.input is Pruned,
            self.output is Pruned,
        ensures
            match decoded_merge(self@, expected@) {
                Some(c) => r matches Ok(x) && x@ == c,
                None => r matches Err(x) && x == RecursionError::ClaimMismatch,
            },
            r matches Ok(m) ==> claim_digest(m@) == claim_digest(self@) && claim_digest(m@) == claim_digest(
                expected@,
            ),
    {
        proof {
            if decoded_merge(self@, expected@) is Some {
                lemma_merge_agrees(self@, expected@);
            }
        }
        if !exit_codes_equal(self.exit_code, expected.exit_code) {
            return Err(RecursionError::ClaimMismatch);
        }
        if !maybe_input_digest_of(&self.input).equals(&maybe_input_digest_of(&expected.input)) {
            return Err(RecursionError::ClaimMismatch);
        }
        if !maybe_output_digest_of(&self.output).equals(&maybe_output_digest_of(&expected.output)) {
            return Err(RecursionError::ClaimMismatch);
        }
        let pre = match merge_state(&self.pre, &expected.pre) {
            Some(s) => s,
            None => return Err(RecursionError::ClaimMismatch),
        };
        let post = match merge_state(&self.post, &expected.post) {
            Some(s) => s,
            None => return Err(RecursionError::ClaimMismatch),
        };
        Ok(ReceiptClaim {
            pre,
            post,
            exit_code: self.exit_code,
            input: copy_input(&expected.input),
            output: copy_output(&expected.output),
        })
    }
}

/// Law: a claim decoded from a run and merged with the expected claim commits to the same
/// digest as the expected claim, so the receipt attests to exactly what was expected.
pub proof fn lemma_merge_keeps_digest(d: ClaimView, e: ClaimView)
    requires
        decoded_merge(d, e) is Some,
    ensures
        claim_digest(decoded_merge(d, e).unwrap()) == claim_digest(e),
{
    let m = decoded_merge(d, e).unwrap();
    assert(maybe_state_digest(m.pre) == maybe_state_digest(e.pre));
    assert(maybe_state_digest(m.post) == maybe_state_digest(e.post));
}

/// Law: merging two machine states that may be pruned succeeds only when they commit to
/// the same digest, and the result commits to it too; two present states merge only when
/// their program counters and their memory Merkle roots are both equal, and a merge keeps
/// a present state present.
pub proof fn lemma_state_merge_agrees(a: MaybePruned<SystemState>, b: MaybePruned<SystemState>)
    ensures
        state_merge(a, b) matches Some(m) ==> maybe_state_digest(m) == maybe_state_digest(a)
            && maybe_state_digest(m) == maybe_state_digest(b),
        state_merge(a, b) matches Some(m) ==> (m is Value <==> (a is Value || b is Value)),
        (a, b) matches (MaybePruned::Value(x), MaybePruned::Value(y)) ==> (state_merge(a, b) is Some <==> (x.pc
            == y.pc && x.merkle_root@ == y.merkle_root@)),
        !(a is Value && b is Value) ==> (state_merge(a, b) is Some <==> maybe_state_digest(a)
            == maybe_state_digest(b)),
{
}

/// Law: merging the claim `d` decoded from a run with the expected claim `e` succeeds only
/// when the two agree: equal exit codes, and the same digests for the input, the output and
/// both machine states (present states being equal field by field). The merged claim then
/// commits to the same digest as each of them. Conversely, two claims that agree merge.
pub proof fn lemma_merge_agrees(d: ClaimView, e: ClaimView)
    ensures
        decoded_merge(d, e) matches Some(m) ==> {
            &&& d.exit_code == e.exit_code
            &&& m.exit_code == e.exit_code
            &&& maybe_state_digest(d.pre) == maybe_state_digest(e.pre)
            &&& maybe_state_digest(d.post) == maybe_state_digest(e.post)
            &&& maybe_state_digest(m.pre) == maybe_state_digest(e.pre)
            &&& maybe_state_digest(m.post) == maybe_state_digest(e.post)
            &&& maybe_input_digest(d.input) == maybe_input_digest(e.input)
            &&& maybe_output_digest(d.output) == maybe_output_digest(e.output)
            &&& claim_digest(m) == claim_digest(d)
            &&& claim_digest(m) == claim_digest(e)
        },
        decoded_merge(d, e) is Some ==> ((d.pre, e.pre) matches (MaybePruned::Value(x), MaybePruned::Value(y))
            ==> x.pc == y.pc && x.merkle_root@ == y.merkle_root@),
        decoded_merge(d, e) is Some ==> ((d.post, e.post) matches (MaybePruned::Value(x), MaybePruned::Value(y))
            ==> x.pc == y.pc && x.merkle_root@ == y.merkle_root@),
        ({
            &&& d.exit_code == e.exit_code
            &&& maybe_state_digest(d.pre) == maybe_state_digest(e.pre)
            &&& maybe_state_digest(d.post) == maybe_state_digest(e.post)
            &&& (d.pre, e.pre) matches (MaybePruned::Value(x), MaybePruned::Value(y)) ==> x.pc == y.pc
                && x.merkle_root@ == y.merkle_root@
            &&& (d.post, e.post) matches (MaybePruned::Value(x), MaybePruned::Value(y)) ==> x.pc == y.pc
                && x.merkle_root@ == y.merkle_root@
            &&& maybe_input_digest(d.input) == maybe_input_digest(e.input)
            &&& maybe_output_digest(d.output) == maybe_output_digest(e.output)
        }) ==> decoded_merge(d, e) is Some,
{
    lemma_state_merge_agrees(d.pre, e.pre);
    lemma_state_merge_agrees(d.post, e.post);
    if let Some(m) = decoded_merge(d, e) {
        assert(maybe_state_digest(m.pre) == maybe_state_digest(d.pre));
        assert(maybe_state_digest(m.post) == maybe_state_digest(d.post));
        assert(m.input == e.input && m.output == e.output);
    }
}

/// Law: the digest of a claim commits to its exit code by the two words that the claim's
/// encoding writes for it: read back as an exit code, those words give the claim's exit
/// code (a session limit, which has no reading of its own, is written as system part 2
/// and user part 2). Its parts are the digests of the input, the two states and the
/// output, in that order.
pub proof fn lemma_claim_digest_exit_code(c: ClaimView)
    ensures
        exists|sys: u32, user: u32|
            {
                &&& claim_digest(c) == tagged_struct(
                    claim_tag(),
                    seq![
                        maybe_input_digest(c.input),
                        maybe_state_digest(c.pre),
                        maybe_state_digest(c.post),
                        maybe_output_digest(c.output),
                    ],
                    #[trigger] seq![sys, user],
                )
                &&& c.exit_code != ExitCode::SessionLimit ==> exit_from_pair(sys, user) == Some(c.exit_code)
                &&& c.exit_code == ExitCode::SessionLimit ==> sys == 2 && user == 2
                &&& claim_words(c) matches Some(w) ==> w[56] == sys && w[57] == user
            },
{
    let sys = exit_pair(c.exit_code).0;
    let user = exit_pair(c.exit_code).1;
    assert(c.exit_code != ExitCode::SessionLimit ==> exit_from_pair(sys, user) == Some(c.exit_code));
    if let Some(w) = claim_words(c) {
        let i = maybe_input_digest(c.input);
        assert(i.len() == 8) by {
            match c.input {
                MaybePruned::Value(_) => {},
                MaybePruned::Pruned(x) => assert(x@.len() == 8),
            }
        }
        let pre = c.pre->Value_0;
        let post = c.post->Value_0;
        assert(pre.merkle_root@.len() == 8 && post.merkle_root@.len() == 8);
        assert(state_words(pre).len() == 20 && state_words(post).len() == 20);
        assert(w[56] == sys && w[57] == user);
    }
    assert(claim_digest(c) == tagged_struct(
        claim_tag(),
        seq![
            maybe_input_digest(c.input),
            maybe_state_digest(c.pre),
            maybe_state_digest(c.post),
            maybe_output_digest(c.output),
        ],
        seq![sys, user],
    ));
}

/// Law: resolving a claim gives, for a journal present as bytes, the SHA-256 digest of those
/// bytes, whatever they are, the empty journal included; and the journal and remaining
/// assumption digests it gives are the parts of the output digest of the resolved claim.
pub proof fn lemma_resolution_journal(c: ClaimView, resolved: Seq<u32>)
    requires
        resolution(c, resolved) is Ok,
    ensures
        ({
            let (rc, tail, journal) = resolution(c, resolved)->Ok_0;
            let o = c.output->Value_0->Some_0;
            &&& o.journal matches MaybePruned::Value(bytes) ==> journal == sha256_digest(bytes)
            &&& o.journal matches MaybePruned::Pruned(d) ==> journal == d@
            &&& maybe_output_digest(rc.output) == tagged_struct(output_tag(), seq![journal, tail], Seq::empty())
        }),
{
}

/// Splitting a digest into half words and joining them again gives the digest back, and
/// every half word fits in 16 bits.
proof fn lemma_halves_round_trip(x: Seq<u32>)
    requires
        x.len() == 8,
    ensures
        joined_halves(split_halves(x)) == x,
        half_words(split_halves(x), 0, 16),
{
    let h = split_halves(x);
    assert forall|i: int| 0 <= i < 8 implies joined_halves(h)[i] == x[i] by {
        let w = x[i];
        assert((2 * i) / 2 == i && (2 * i) % 2 == 0);
        assert((2 * i + 1) / 2 == i && (2 * i + 1) % 2 == 1);
        assert(((w & 0xffffu32) & 0xffffu32) | (((w >> 16u32) & 0xffffu32) << 16u32) == w) by (bit_vector);
    }
    assert(joined_halves(h) =~= x);
    assert forall|i: int| 0 <= i < 16 implies #[trigger] h[i] < 0x10000 by {
        let w = x[i / 2];
        assert((w & 0xffffu32) < 0x10000u32 && (w >> 16u32) < 0x10000u32) by (bit_vector);
    }
}

/// The bytes of a word, one per word, read back as a word give the word.
proof fn lemma_bytes_round_trip(w: u32)
    ensures
        bytes_word(byte_words(w)[0], byte_words(w)[1], byte_words(w)[2], byte_words(w)[3]) == w,
{
    assert((((w & 0xffu32) & 0xffu32) | ((((w >> 8u32) & 0xffu32) & 0xffu32) << 8u32) | ((((w >> 16u32)
        & 0xffu32) & 0xffu32) << 16u32) | (((w >> 24u32) & 0xffu32) << 24u32)) == w) by (bit_vector);
}

/// A machine state written by `claim_words` at position `at` is read back by `decoded_state`.
#[verifier::spinoff_prover]
#[verifier::rlimit(60)]
proof fn lemma_state_round_trip(w: Seq<u32>, at: int, s: SystemState, d: SystemState)
    requires
        0 <= at,
        at + 20 <= w.len(),
        w.subrange(at, at + 20) == state_words(s),
        decoded_state(w, at, d),
    ensures
        d.pc == s.pc,
        d.merkle_root@ == s.merkle_root@,
        half_words(w, at + 4, at + 20),
{
    let sw = w.subrange(at, at + 20);
    let h = split_halves(s.merkle_root@);
    assert(s.merkle_root@.len() == 8);
    assert(h.len() == 16);
    let tail = w.subrange(at + 4, at + 20);
    assert(tail == h) by {
        assert(sw.subrange(4, 20) =~= h);
        assert(tail =~= sw.subrange(4, 20));
    }
    assert(d.merkle_root@ == s.merkle_root@) by {
        lemma_halves_round_trip(s.merkle_root@);
    }
    assert(d.pc == s.pc) by {
        let bw = byte_words(s.pc);
        lemma_bytes_round_trip(s.pc);
        assert(sw[0] == w[at] && sw[1] == w[at + 1] && sw[2] == w[at + 2] && sw[3] == w[at + 3]);
        assert(sw[0] == bw[0] && sw[1] == bw[1] && sw[2] == bw[2] && sw[3] == bw[3]);
    }
    assert(half_words(w, at + 4, at + 20)) by {
        lemma_halves_round_trip(s.merkle_root@);
        assert forall|i: int| at + 4 <= i < at + 20 implies #[trigger] w[i] < 0x10000 by {
            assert(tail[i - at - 4] == w[i]);
            assert(h[i - at - 4] < 0x10000);
        }
    }
}

/// Law: the words that `encode` writes for a claim, 74 of them, hold a claim, and what
/// they hold has the claim's states and exit code and commits to its input and output; so
/// it merges with the claim, and the merged claim commits to the claim's digest. A
/// session-limit exit is the exception: its parts are read back as a split.
pub proof fn lemma_decode_encoded(c: ClaimView, d: ClaimView)
    requires
        claim_words(c) matches Some(w) && w.len() == 74 && decodes_to(w, d),
        c.exit_code != ExitCode::SessionLimit,
    ensures
        decodable(claim_words(c).unwrap()),
        c.pre matches MaybePruned::Value(s) && d.pre matches MaybePruned::Value(t) && s.pc == t.pc
            && s.merkle_root@ == t.merkle_root@,
        c.post matches MaybePruned::Value(s) && d.post matches MaybePruned::Value(t) && s.pc == t.pc
            && s.merkle_root@ == t.merkle_root@,
        d.exit_code == c.exit_code,
        maybe_input_digest(d.input) == maybe_input_digest(c.input),
        maybe_output_digest(d.output) == maybe_output_digest(c.output),
        decoded_merge(d, c) is Some,
        claim_digest(decoded_merge(d, c).unwrap()) == claim_digest(c),
{
    let w = claim_words(c).unwrap();
    let pre = c.pre->Value_0;
    let post = c.post->Value_0;
    let i = maybe_input_digest(c.input);
    let o = maybe_output_digest(c.output);
    let (sys, user) = exit_pair(c.exit_code);
    assert(i.len() == 8) by {
        match c.input {
            MaybePruned::Value(_) => {},
            MaybePruned::Pruned(x) => assert(x@.len() == 8),
        }
    }
    assert(pre.merkle_root@.len() == 8 && post.merkle_root@.len() == 8);
    assert(split_halves(i).len() == 16);
    assert(state_words(pre).len() == 20 && state_words(post).len() == 20);
    assert(o.len() == 8);
    lemma_halves_round_trip(i);
    lemma_halves_round_trip(o);
    assert(w.subrange(0, 16) =~= split_halves(i));
    assert(w.subrange(16, 36) =~= state_words(pre));
    assert(w.subrange(36, 56) =~= state_words(post));
    assert(w.subrange(58, 74) =~= split_halves(o));
    assert(w[56] == sys && w[57] == user);
    let dpre = d.pre->Value_0;
    let dpost = d.post->Value_0;
    lemma_state_round_trip(w, 16, pre, dpre);
    lemma_state_round_trip(w, 36, post, dpost);
    assert forall|k: int| 0 <= k < 16 implies #[trigger] w[k] < 0x10000 by {
        assert(w[k] == split_halves(i)[k]);
    }
    assert forall|k: int| 58 <= k < 74 implies #[trigger] w[k] < 0x10000 by {
        assert(w[k] == split_halves(o)[k - 58]);
    }
    assert(d.input->Pruned_0@ == i);
    assert(d.output->Pruned_0@ == o);
    lemma_merge_keeps_digest(d, c);
}

} // verus!
