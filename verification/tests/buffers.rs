//! The fixed-width buffer discipline and the byte-string helpers.

use decharge::state::{bytes_eq, copy_bytes, fit_to_array};

#[test]
fn fit_pads_short_input_with_zeros() {
    let out = fit_to_array(&"Austin".as_bytes().to_vec(), 48);
    assert_eq!(out.len(), 48);
    assert_eq!(&out[..6], "Austin".as_bytes());
    assert!(out[6..].iter().all(|b| *b == 0));
}

#[test]
fn fit_truncates_long_input() {
    let out = fit_to_array(&vec![9u8; 100], 64);
    assert_eq!(out, vec![9u8; 64]);
}

#[test]
fn fit_of_exact_width_is_identity() {
    let input: Vec<u8> = (0u8..64).collect();
    let out = fit_to_array(&input, 64);
    assert_eq!(out, input);
}

#[test]
fn fit_to_zero_width_is_empty() {
    let out = fit_to_array(&"abc".as_bytes().to_vec(), 0);
    assert!(out.is_empty());
}

#[test]
fn bytes_eq_compares_contents() {
    let a = "station".as_bytes().to_vec();
    let b = "station".as_bytes().to_vec();
    let c = "statioN".as_bytes().to_vec();
    let d = "statio".as_bytes().to_vec();
    assert!(bytes_eq(&a, &b));
    assert!(!bytes_eq(&a, &c));
    assert!(!bytes_eq(&a, &d));
    assert!(bytes_eq(&Vec::new(), &Vec::new()));
}

#[test]
fn copy_bytes_preserves_contents() {
    let a = vec![1u8, 2, 3];
    let b = copy_bytes(&a);
    assert_eq!(a, b);
    assert!(copy_bytes(&Vec::new()).is_empty());
}
