use okv_eval::receipt_signature::{receipt_signature, receipt_signature_valid};

fn hex(text: &str) -> Vec<u8> {
    (0..text.len()).step_by(2).map(|i| u8::from_str_radix(&text[i..i + 2], 16).unwrap()).collect()
}

const IDENTITY: &[u8] = br#"["okv-eval-rfc0054-inventory-key-v1",1103,1,1]"#;
const UNSIGNED: &[u8] = br#"{"format_version":1}"#;

#[test]
fn receipt_signature_is_the_seeded_ed25519_signature() {
    assert_eq!(
        receipt_signature(IDENTITY, UNSIGNED),
        hex(&[
            "03b7a7005083ca904e32a5be32366feea8eddc5a116b394892671a9d7d7b7690",
            "417012cac744a5c5caf8fd45b67fb9b1693a5faf3b5faa111784ecccc4ba2300",
        ]
        .concat())
    );
}

#[test]
fn signed_receipts_verify_and_mutations_do_not() {
    let signature = receipt_signature(IDENTITY, UNSIGNED);
    assert!(receipt_signature_valid(IDENTITY, UNSIGNED, &signature));
    assert!(!receipt_signature_valid(IDENTITY, br#"{"format_version":2}"#, &signature));
    assert!(!receipt_signature_valid(br#"["okv-eval-rfc0054-inventory-key-v1",1103,1,2]"#, UNSIGNED, &signature));
    let mut forged = signature.clone();
    forged[0] ^= 1;
    assert!(!receipt_signature_valid(IDENTITY, UNSIGNED, &forged));
    assert!(!receipt_signature_valid(IDENTITY, UNSIGNED, &[]));
}
