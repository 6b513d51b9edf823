use zkvm_recursion::recursion::claim::{
    resolve_claim, Assumption, Assumptions, ExitCode, MaybePruned, Output, ReceiptClaim, SystemState,
};
use zkvm_recursion::recursion::digest::Digest;
use zkvm_recursion::recursion::error::RecursionError;

fn sha(bytes: &[u8]) -> [u32; 8] {
    (*<risc0_zkp::core::hash::sha::cpu::Impl as risc0_zkp::core::hash::sha::Sha256>::hash_bytes(bytes)).into()
}

fn tagged(tag: &str, down: &[[u32; 8]], data: &[u32]) -> [u32; 8] {
    let mut all = Vec::new();
    for w in sha(tag.as_bytes()) {
        all.extend_from_slice(&w.to_le_bytes());
    }
    for d in down {
        for w in d {
            all.extend_from_slice(&w.to_le_bytes());
        }
    }
    for w in data {
        all.extend_from_slice(&w.to_le_bytes());
    }
    all.extend_from_slice(&(down.len() as u16).to_le_bytes());
    sha(&all)
}

fn halves(d: [u32; 8]) -> Vec<u32> {
    d.iter().flat_map(|w| [w & 0xffff, w >> 16]).collect()
}

fn state(pc: u32, w: u32) -> SystemState {
    SystemState { pc, merkle_root: Digest::new([w; 8]) }
}

fn assumption(w: u32) -> Assumption {
    Assumption { claim: Digest::new([w; 8]), control_root: Digest::new([w + 1; 8]) }
}

fn output(journal: Vec<u8>, list: Vec<MaybePruned<Assumption>>) -> MaybePruned<Option<Output>> {
    MaybePruned::Value(Some(Output {
        journal: MaybePruned::Value(journal),
        assumptions: MaybePruned::Value(Assumptions(list)),
    }))
}

fn claim(list: Vec<MaybePruned<Assumption>>) -> ReceiptClaim {
    ReceiptClaim {
        pre: MaybePruned::Value(state(0x1000, 3)),
        post: MaybePruned::Value(state(0x2004, 4)),
        exit_code: ExitCode::Halted(0),
        input: MaybePruned::Value(None),
        output: output(vec![1, 2, 3], list),
    }
}

fn state_ref(s: &SystemState) -> [u32; 8] {
    tagged("risc0.SystemState", &[s.merkle_root.words], &[s.pc])
}

fn assumption_ref(a: &Assumption) -> [u32; 8] {
    tagged("risc0.Assumption", &[a.claim.words, a.control_root.words], &[])
}

fn list_ref(ds: &[[u32; 8]]) -> [u32; 8] {
    ds.iter().rev().fold([0u32; 8], |acc, d| tagged("risc0.Assumptions", &[*d, acc], &[]))
}

fn output_digest(c: &ReceiptClaim) -> [u32; 8] {
    match &c.output {
        MaybePruned::Value(Some(o)) => o.digest().words,
        _ => panic!("no output"),
    }
}

#[test]
fn state_and_assumption_digests() {
    let s = state(0x1234, 9);
    assert_eq!(s.digest().words, state_ref(&s));
    let a = assumption(5);
    assert_eq!(a.digest().words, assumption_ref(&a));
    assert_ne!(a.digest().words, assumption_ref(&assumption(6)));
}

#[test]
fn output_digest_commits_to_journal_and_list() {
    let a = assumption(5);
    let b = assumption(7);
    let o = Output {
        journal: MaybePruned::Value(vec![9, 8]),
        assumptions: MaybePruned::Value(Assumptions(vec![MaybePruned::Value(a), MaybePruned::Pruned(b.digest())])),
    };
    let list = list_ref(&[assumption_ref(&a), assumption_ref(&b)]);
    assert_eq!(o.digest().words, tagged("risc0.Output", &[sha(&[9, 8]), list], &[]));
    let empty = Output {
        journal: MaybePruned::Pruned(Digest::new([2; 8])),
        assumptions: MaybePruned::Value(Assumptions(vec![])),
    };
    assert_eq!(empty.digest().words, tagged("risc0.Output", &[[2; 8], [0; 8]], &[]));
}

#[test]
fn claim_digest_and_encoding() {
    let c = claim(vec![MaybePruned::Value(assumption(5))]);
    let out_digest = output_digest(&c);
    let pre = state(0x1000, 3);
    let post = state(0x2004, 4);
    let expected = tagged(
        "risc0.ReceiptClaim",
        &[[0; 8], state_ref(&pre), state_ref(&post), out_digest],
        &[0, 0],
    );
    assert_eq!(c.digest().words, expected);

    let mut words = halves([0; 8]);
    words.extend_from_slice(&[0x00, 0x10, 0, 0]);
    words.extend(halves([3; 8]));
    words.extend_from_slice(&[0x04, 0x20, 0, 0]);
    words.extend(halves([4; 8]));
    words.extend_from_slice(&[0, 0]);
    words.extend(halves(out_digest));
    assert_eq!(c.encode().unwrap(), words);
    assert_eq!(words.len(), 74);
}

#[test]
fn encoding_refuses_pruned_states() {
    let mut c = claim(vec![]);
    c.post = MaybePruned::Pruned(Digest::zero());
    assert_eq!(c.encode().unwrap_err(), RecursionError::PrunedValue);
}

#[test]
fn decode_reads_back_the_encoding() {
    let mut c = claim(vec![MaybePruned::Value(assumption(5))]);
    c.exit_code = ExitCode::Paused(7);
    let words = c.encode().unwrap();
    let mut longer = words.clone();
    longer.push(99);
    let d = ReceiptClaim::decode(&longer).unwrap();
    match (&d.pre, &d.post, &d.input, &d.output) {
        (MaybePruned::Value(p), MaybePruned::Value(q), MaybePruned::Pruned(i), MaybePruned::Pruned(o)) => {
            assert_eq!((p.pc, p.merkle_root.words), (0x1000, [3; 8]));
            assert_eq!((q.pc, q.merkle_root.words), (0x2004, [4; 8]));
            assert_eq!(i.words, [0; 8]);
            assert_eq!(o.words, output_digest(&c));
        },
        _ => panic!("unexpected shape"),
    }
    assert!(matches!(d.exit_code, ExitCode::Paused(7)));
    let merged = d.merge_decoded(&c).unwrap();
    assert_eq!(merged.digest().words, c.digest().words);
}

#[test]
fn decode_refusals() {
    let c = claim(vec![]);
    let words = c.encode().unwrap();
    assert_eq!(ReceiptClaim::decode(&words[..73]).unwrap_err(), RecursionError::DecodeFailed);
    let mut bad_half = words.clone();
    bad_half[3] = 0x10000;
    assert_eq!(ReceiptClaim::decode(&bad_half).unwrap_err(), RecursionError::DecodeFailed);
    let mut bad_exit = words.clone();
    bad_exit[56] = 3;
    assert_eq!(ReceiptClaim::decode(&bad_exit).unwrap_err(), RecursionError::DecodeFailed);
    let mut split = words.clone();
    split[56] = 2;
    split[57] = 2;
    assert!(matches!(ReceiptClaim::decode(&split).unwrap().exit_code, ExitCode::SystemSplit));
}

#[test]
fn merge_refuses_disagreeing_claims() {
    let c = claim(vec![]);
    let d = ReceiptClaim::decode(&c.encode().unwrap()).unwrap();
    let mut other = claim(vec![]);
    other.exit_code = ExitCode::Halted(1);
    assert_eq!(d.merge_decoded(&other).unwrap_err(), RecursionError::ClaimMismatch);
    let mut other = claim(vec![]);
    other.output = output(vec![1, 2, 4], vec![]);
    assert_eq!(d.merge_decoded(&other).unwrap_err(), RecursionError::ClaimMismatch);
    let mut other = claim(vec![]);
    other.pre = MaybePruned::Value(state(0x1001, 3));
    assert_eq!(d.merge_decoded(&other).unwrap_err(), RecursionError::ClaimMismatch);
    // A pruned state merges with the decoded one when the digests agree, keeping the value.
    let mut other = claim(vec![]);
    other.pre = MaybePruned::Pruned(state(0x1000, 3).digest());
    let m = d.merge_decoded(&other).unwrap();
    assert!(matches!(&m.pre, MaybePruned::Value(s) if s.pc == 0x1000));
    assert_eq!(m.digest().words, other.digest().words);
}

#[test]
fn resolve_claim_removes_the_head_assumption() {
    let head = assumption(5);
    let rest = assumption(7);
    let c = claim(vec![MaybePruned::Value(head), MaybePruned::Value(rest)]);
    let (rc, tail, journal) = resolve_claim(&c, &head.digest()).unwrap();
    assert_eq!(tail.words, list_ref(&[assumption_ref(&rest)]));
    assert_eq!(journal.words, sha(&[1, 2, 3]));
    assert_eq!(rc.digest().words, claim(vec![MaybePruned::Value(rest)]).digest().words);
    // Resolving the last assumption leaves an unconditional claim.
    let (last, tail, _) = resolve_claim(&rc, &rest.digest()).unwrap();
    assert_eq!(tail.words, [0; 8]);
    assert_eq!(last.digest().words, claim(vec![]).digest().words);
}

#[test]
fn resolve_claim_refusals() {
    let head = assumption(5);
    let mut c = claim(vec![MaybePruned::Value(head)]);
    let wrong = assumption(6).digest();
    let e = resolve_claim(&c, &wrong).unwrap_err();
    assert_eq!(e, RecursionError::AssumptionMismatch { resolved: wrong, head: head.digest() });
    assert!(e.message().starts_with("resolved assumption is not equal to the head of the list: "));
    c.output = output(vec![], vec![]);
    let e = resolve_claim(&c, &wrong).unwrap_err();
    assert_eq!(e.message(), "cannot resolve assumption from empty list");
    c.output = MaybePruned::Value(Some(Output {
        journal: MaybePruned::Value(vec![]),
        assumptions: MaybePruned::Pruned(Digest::zero()),
    }));
    assert_eq!(resolve_claim(&c, &wrong).unwrap_err().message(), "conditional receipt assumptions are pruned");
    c.output = MaybePruned::Value(None);
    assert_eq!(
        resolve_claim(&c, &wrong).unwrap_err().message(),
        "conditional receipt has empty output and no assumptions"
    );
    c.output = MaybePruned::Pruned(Digest::zero());
    assert_eq!(resolve_claim(&c, &wrong).unwrap_err().message(), "conditional receipt output is pruned");
}

#[test]
fn session_limit_reads_back_as_a_split() {
    let mut c = claim(vec![]);
    c.exit_code = ExitCode::SessionLimit;
    let words = c.encode().unwrap();
    assert_eq!((words[56], words[57]), (2, 2));
    let d = ReceiptClaim::decode(&words).unwrap();
    assert!(matches!(d.exit_code, ExitCode::SystemSplit));
    assert_eq!(d.merge_decoded(&c).unwrap_err(), RecursionError::ClaimMismatch);
}
