//! The recursion programs, named by their file names in the table of control IDs, and
//! the options that select the prover's hash function and allowed control IDs.

use vstd::prelude::*;

use super::control_id::{
    rv32im_poseidon2_control_id, allowed_control_ids, allowed_control_ids_spec, zkr_control_id, zkr_lookup, zkr_lookup_from, zkr_table_name,
};
use super::digest::Digest;
use super::error::{ErrorView, RecursionError};
use super::hash::{hash_suite_from_name, suite_for_name, HashSuite};
use super::merkle::digests_view;

verus! {

/// The decimal digit `d` as a character.
pub open spec fn digit_char(d: nat) -> char {
    (d + 48) as char
}

/// The decimal representation of `n`, without leading zeros.
pub open spec fn decimal(n: nat) -> Seq<char>
    decreases n,
{
    if n < 10 {
        seq![digit_char(n)]
    } else {
        decimal(n / 10).push(digit_char(n % 10))
    }
}

/// The file name of the lift program for segments of 2^po2 cycles.
pub open spec fn lift_program_name(po2: nat) -> Seq<char> {
    "lift_"@ + decimal(po2) + ".zkr"@
}

/// A decimal representation has one digit below ten and at least two from ten on.
proof fn lemma_decimal_len(n: nat)
    ensures
        decimal(n).len() >= 1,
        n < 10 ==> decimal(n).len() == 1,
        n >= 10 ==> decimal(n).len() >= 2,
    decreases n,
{
    if n >= 10 {
        lemma_decimal_len(n / 10);
    }
}

/// Distinct numbers have distinct decimal representations.
proof fn lemma_decimal_injective(a: nat, b: nat)
    requires
        decimal(a) == decimal(b),
    ensures
        a == b,
    decreases a,
{
    lemma_decimal_len(a);
    lemma_decimal_len(b);
    if a < 10 && b < 10 {
        assert(decimal(a)[0] == digit_char(a));
        assert(decimal(b)[0] == digit_char(b));
        assert((a + 48) as char == (b + 48) as char);
    } else if a >= 10 && b >= 10 {
        let da = decimal(a);
        let db = decimal(b);
        assert(da.last() == digit_char(a % 10));
        assert(db.last() == digit_char(b % 10));
        assert(((a % 10) + 48) as char == ((b % 10) + 48) as char);
        assert(da.drop_last() =~= decimal(a / 10));
        assert(db.drop_last() =~= decimal(b / 10));
        lemma_decimal_injective(a / 10, b / 10);
    }
}

/// Two lift program names are equal exactly when their cycle counts are.
proof fn lemma_lift_name_injective(a: nat, b: nat)
    ensures
        (lift_program_name(a) == lift_program_name(b)) == (a == b),
        lift_program_name(a)[0] == 'l',
{
    reveal_strlit("lift_");
    reveal_strlit(".zkr");
    lemma_decimal_len(a);
    lemma_decimal_len(b);
    let na = lift_program_name(a);
    let nb = lift_program_name(b);
    if na == nb {
        assert(na.subrange(5, na.len() - 4) =~= decimal(a));
        assert(nb.subrange(5, nb.len() - 4) =~= decimal(b));
        lemma_decimal_injective(a, b);
    }
}

/// Looking a lift program up from table entry `i` on finds one exactly when its cycle
/// count is that of entry `i` or a later lift program.
proof fn lemma_lookup_lift_from(po2: nat, i: int)
    requires
        2 <= i <= 15,
    ensures
        (zkr_lookup_from(lift_program_name(po2), i) is Some) == (i + 12 <= po2 <= 24),
    decreases 15 - i,
{
    lemma_lift_name_injective(po2, po2);
    if i == 15 {
    } else {
        if i == 13 {
            reveal_strlit("resolve.zkr");
            assert(zkr_table_name(i)[0] != lift_program_name(po2)[0]);
        } else if i == 14 {
            reveal_strlit("test_recursion_circuit.zkr");
            assert(zkr_table_name(i)[0] != lift_program_name(po2)[0]);
        } else {
            lemma_lift_name_injective(po2, (i + 12) as nat);
            assert(zkr_table_name(i) == lift_program_name((i + 12) as nat));
        }
        lemma_lookup_lift_from(po2, i + 1);
    }
}

/// Law: the recursion programs loaded by fixed name are all in the table, and there is a
/// lift program for exactly the segments of 2^14 to 2^24 cycles.
pub proof fn lemma_known_programs()
    ensures
        zkr_lookup("identity.zkr"@) is Some,
        zkr_lookup("join.zkr"@) is Some,
        zkr_lookup("resolve.zkr"@) is Some,
        zkr_lookup("test_recursion_circuit.zkr"@) is Some,
        forall|po2: nat| (#[trigger] zkr_lookup(lift_program_name(po2)) is Some) == (14 <= po2 <= 24),
{
    reveal_strlit("identity.zkr");
    reveal_strlit("join.zkr");
    reveal_strlit("resolve.zkr");
    reveal_strlit("test_recursion_circuit.zkr");
    reveal_with_fuel(zkr_lookup_from, 16);
    assert forall|i: int| 2 <= i <= 12 implies (#[trigger] zkr_table_name(i))[0] == 'l' by {
        lemma_lift_name_injective((i + 12) as nat, (i + 12) as nat);
        assert(zkr_table_name(i) == lift_program_name((i + 12) as nat));
    }
    assert forall|po2: nat| (#[trigger] zkr_lookup(lift_program_name(po2)) is Some) == (14 <= po2 <= 24) by {
        lemma_lift_name_injective(po2, po2);
        reveal_strlit("identity.zkr");
        reveal_strlit("join.zkr");
        assert(zkr_table_name(0)[0] != lift_program_name(po2)[0]);
        assert(zkr_table_name(1)[0] != lift_program_name(po2)[0]);
        lemma_lookup_lift_from(po2, 2);
    }
}

/// The decimal digit `d` as a string.
fn digit_str(d: usize) -> (s: &'static str)
    requires
        d < 10,
    ensures
        s@ == seq![digit_char(d as nat)],
{
    match d {
        0 => {
            proof {
                reveal_strlit("0");
            }
            "0"
        },
        1 => {
            proof {
                reveal_strlit("1");
            }
            "1"
        },
        2 => {
            proof {
                reveal_strlit("2");
            }
            "2"
        },
        3 => {
            proof {
                reveal_strlit("3");
            }
            "3"
        },
        4 => {
            proof {
                reveal_strlit("4");
            }
            "4"
        },
        5 => {
            proof {
                reveal_strlit("5");
            }
            "5"
        },
        6 => {
            proof {
                reveal_strlit("6");
            }
            "6"
        },
        7 => {
            proof {
                reveal_strlit("7");
            }
            "7"
        },
        8 => {
            proof {
                reveal_strlit("8");
            }
            "8"
        },
        _ => {
            proof {
                reveal_strlit("9");
            }
            "9"
        },
    }
}

/// The decimal representation of `n`.
fn decimal_string(n: usize) -> (s: String)
    ensures
        s@ == decimal(n as nat),
    decreases n,
{
    if n < 10 {
        digit_str(n).to_owned()
    } else {
        let mut s = decimal_string(n / 10);
        s.append(digit_str(n % 10));
        s
    }
}

/// Writes the file name of the lift program for segments of 2^po2 cycles.
fn format_lift_name(po2: usize) -> (r: String)
    ensures
        r@ == lift_program_name(po2 as nat),
{
    let mut s = "lift_".to_owned();
    s.append(decimal_string(po2).as_str());
    s.append(".zkr");
    s
}

/// A recursion program, identified by its file name.
#[derive(Clone, Debug)]
pub struct Program {
    pub name: String,
}

/// The program of the given name and its control ID; refused when no program of that
/// name is known.
pub fn zkr_program(name: String) -> (r: Result<(Program, Digest), RecursionError>)
    ensures
        r is Ok <==> zkr_lookup(name@) is Some,
        r matches Ok((p, id)) ==> p.name@ == name@ && Some(id@) == zkr_lookup(name@),
        r matches Err(e) ==> e@ == (ErrorView::UnknownProgram { name: name@ }),
{
    match zkr_control_id(&name) {
        Some(id) => Ok((Program { name }, id)),
        None => Err(RecursionError::UnknownProgram { name }),
    }
}

/// The lift program for segments of 2^po2 cycles.
pub fn lift_program(po2: usize) -> (r: Result<(Program, Digest), RecursionError>)
    ensures
        r is Ok <==> zkr_lookup(lift_program_name(po2 as nat)) is Some,
        r matches Ok((p, id)) ==> p.name@ == lift_program_name(po2 as nat) && Some(id@) == zkr_lookup(
            lift_program_name(po2 as nat),
        ),
        r matches Err(e) ==> e@ == (ErrorView::UnknownProgram { name: lift_program_name(po2 as nat) }),
{
    zkr_program(format_lift_name(po2))
}

/// The join program.
pub fn join_program() -> (r: Result<(Program, Digest), RecursionError>)
    ensures
        r is Ok <==> zkr_lookup("join.zkr"@) is Some,
        r matches Ok((p, id)) ==> p.name@ == "join.zkr"@ && Some(id@) == zkr_lookup("join.zkr"@),
        r matches Err(e) ==> e@ == (ErrorView::UnknownProgram { name: "join.zkr"@ }),
{
    zkr_program("join.zkr".to_owned())
}

/// The resolve program.
pub fn resolve_program() -> (r: Result<(Program, Digest), RecursionError>)
    ensures
        r is Ok <==> zkr_lookup("resolve.zkr"@) is Some,
        r matches Ok((p, id)) ==> p.name@ == "resolve.zkr"@ && Some(id@) == zkr_lookup("resolve.zkr"@),
        r matches Err(e) ==> e@ == (ErrorView::UnknownProgram { name: "resolve.zkr"@ }),
{
    zkr_program("resolve.zkr".to_owned())
}

/// The identity program.
pub fn identity_program() -> (r: Result<(Program, Digest), RecursionError>)
    ensures
        r is Ok <==> zkr_lookup("identity.zkr"@) is Some,
        r matches Ok((p, id)) ==> p.name@ == "identity.zkr"@ && Some(id@) == zkr_lookup("identity.zkr"@),
        r matches Err(e) ==> e@ == (ErrorView::UnknownProgram { name: "identity.zkr"@ }),
{
    zkr_program("identity.zkr".to_owned())
}

/// The program that tests the recursion circuit.
pub fn test_recursion_circuit_program() -> (r: Result<(Program, Digest), RecursionError>)
    ensures
        r is Ok <==> zkr_lookup("test_recursion_circuit.zkr"@) is Some,
        r matches Ok((p, id)) ==> p.name@ == "test_recursion_circuit.zkr"@ && Some(id@) == zkr_lookup(
            "test_recursion_circuit.zkr"@,
        ),
        r matches Err(e) ==> e@ == (ErrorView::UnknownProgram { name: "test_recursion_circuit.zkr"@ }),
{
    zkr_program("test_recursion_circuit.zkr".to_owned())
}

/// What the prover is configured with: the hash function of the receipts it produces and
/// the control IDs it accepts.
#[derive(Clone, Debug)]
pub struct ProverOpts {
    pub hashfn: String,
    pub control_ids: Vec<Digest>,
}

impl ProverOpts {
    /// The options for succinct receipts: Poseidon2 and the default allowed control IDs.
    pub fn succinct() -> (r: ProverOpts)
        ensures
            r.hashfn@ == "poseidon2"@,
            digests_view(r.control_ids@) == allowed_control_ids_spec(),
            forall|j: int| 0 <= j < 11 ==> (#[trigger] r.control_ids@[j])@ == rv32im_poseidon2_control_id(j),
    {
        ProverOpts { hashfn: "poseidon2".to_owned(), control_ids: allowed_control_ids() }
    }

    /// The same options with another hash function.
    pub fn with_hashfn(self, hashfn: String) -> (r: ProverOpts)
        ensures
            r.hashfn == hashfn,
            r.control_ids == self.control_ids,
    {
        ProverOpts { hashfn, control_ids: self.control_ids }
    }

    /// The hash suite named by the options; refused when the name is unknown.
    pub fn hash_suite(&self) -> (r: Result<HashSuite, RecursionError>)
        ensures
            r is Ok <==> suite_for_name(self.hashfn@) is Some,
            r matches Ok(s) ==> Some(s) == suite_for_name(self.hashfn@),
            r matches Err(e) ==> e@ == (ErrorView::UnknownHashSuite { name: self.hashfn@ }),
    {
        match hash_suite_from_name(self.hashfn.as_str()) {
            Some(s) => Ok(s),
            None => Err(RecursionError::UnknownHashSuite { name: self.hashfn.clone() }),
        }
    }
}

} // verus!
