use std::hash::Hasher;

use circom_scotia::fnv;

/// Known 64-bit FNV-1a vectors, split into high/low halves.
#[test]
fn fnv_known_vectors() {
    // fnv1a_64("") = 0xcbf29ce484222325 (the offset basis)
    assert_eq!(fnv(""), (0xcbf29ce4, 0x84222325));
    // fnv1a_64("a") = 0xaf63dc4c8601ec8c
    assert_eq!(fnv("a"), (0xaf63dc4c, 0x8601ec8c));
    // fnv1a_64("foobar") = 0x85944171f73967e8
    assert_eq!(fnv("foobar"), (0x85944171, 0xf73967e8));
}

/// The split halves reassemble to exactly what the reference FNV hasher
/// computes, for typical signal names.
#[test]
fn fnv_matches_reference_hasher() {
    let names = ["x", "in", "main.in", "step_in[0]", "a_very_long_signal_name[12]", ""];
    for name in names {
        let mut hasher = fnv::FnvHasher::default();
        hasher.write(name.as_bytes());
        let h = hasher.finish();
        let (high, low) = fnv(name);
        assert_eq!(high, (h >> 32) as u32);
        assert_eq!(low, h as u32);
    }
}

/// The same signal name always yields the same high/low pair.
#[test]
fn fnv_stable_across_calls() {
    let first = fnv("main.step_in[3]");
    for _ in 0..10 {
        assert_eq!(fnv("main.step_in[3]"), first);
    }
}
