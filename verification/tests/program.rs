use zkvm_recursion::recursion::control_id::zkr_control_id;
use zkvm_recursion::recursion::error::RecursionError;
use zkvm_recursion::recursion::hash::HashSuite;
use zkvm_recursion::recursion::program::{
    identity_program, join_program, lift_program, resolve_program, test_recursion_circuit_program,
    zkr_program, ProverOpts,
};

fn table_id(name: &str) -> [u32; 8] {
    let (_, id) = risc0_circuit_recursion::control_id::POSEIDON2_CONTROL_IDS
        .iter()
        .find(|(n, _)| *n == name)
        .unwrap();
    (*id).into()
}

#[test]
fn programs_by_name() {
    let (p, id) = lift_program(14).unwrap();
    assert_eq!(p.name, "lift_14.zkr");
    assert_eq!(id.words, table_id("lift_14.zkr"));
    let (p, id) = lift_program(24).unwrap();
    assert_eq!(p.name, "lift_24.zkr");
    assert_eq!(id.words, table_id("lift_24.zkr"));
    assert_eq!(
        lift_program(13).unwrap_err(),
        RecursionError::UnknownProgram { name: "lift_13.zkr".to_string() }
    );
    assert_eq!(
        lift_program(25).unwrap_err().message(),
        "unknown recursion program: lift_25.zkr"
    );
    assert_eq!(join_program().unwrap().1.words, table_id("join.zkr"));
    assert_eq!(resolve_program().unwrap().1.words, table_id("resolve.zkr"));
    assert_eq!(identity_program().unwrap().1.words, table_id("identity.zkr"));
    assert_eq!(
        test_recursion_circuit_program().unwrap().1.words,
        table_id("test_recursion_circuit.zkr")
    );
    assert_eq!(
        zkr_program("nope.zkr".to_string()).unwrap_err(),
        RecursionError::UnknownProgram { name: "nope.zkr".to_string() }
    );
}

#[test]
fn control_id_lookup() {
    assert_eq!(zkr_control_id(&"join.zkr".to_string()).unwrap().words, table_id("join.zkr"));
    assert!(zkr_control_id(&"join".to_string()).is_none());
}

#[test]
fn prover_options() {
    let opts = ProverOpts::succinct();
    assert_eq!(opts.hashfn, "poseidon2");
    assert_eq!(opts.control_ids.len(), 25);
    assert_eq!(opts.hash_suite().unwrap(), HashSuite::Poseidon2);
    let p254 = opts.clone().with_hashfn("poseidon_254".to_string());
    assert_eq!(p254.hashfn, "poseidon_254");
    assert_eq!(p254.control_ids.len(), 25);
    assert_eq!(p254.hash_suite().unwrap(), HashSuite::Poseidon254);
    let odd = opts.with_hashfn("md5".to_string());
    assert_eq!(odd.hash_suite().unwrap_err().message(), "unsupported hash function: md5");
}
