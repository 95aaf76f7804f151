use airdrop_rust::codec::decode_base58;
use airdrop_rust::codec::encode_base58;
use airdrop_rust::codec::CodecError;
use airdrop_rust::derive::find_program_address;
use airdrop_rust::derive::DeriveError;
use airdrop_rust::explorer::get_transaction_url;
use airdrop_rust::instruction::build_transfer;
use airdrop_rust::instruction::system_program_id;
use airdrop_rust::instruction::AccountMeta;
use airdrop_rust::instruction::Instruction;
use airdrop_rust::literal::array_literal_to_bytes;
use airdrop_rust::literal::bytes_to_array_literal;
use airdrop_rust::message::assemble;
use airdrop_rust::message::AssembleError;
use airdrop_rust::signer::sign;
use airdrop_rust::signer::Envelope;
use airdrop_rust::signer::EnvelopeError;
use airdrop_rust::signer::EnvelopeStatus;
use airdrop_rust::signer::Keypair;
use airdrop_rust::signer::KeypairError;
use airdrop_rust::signer::SignError;
use airdrop_rust::transfer::amount_after_fee;
use airdrop_rust::transfer::build_fee_adjusted_transfer;
use airdrop_rust::transfer::build_transfer_message;
use airdrop_rust::transfer::TransferError;
use airdrop_rust::types::Address;

const LAMPORTS_PER_SOL: u64 = 1_000_000_000;

fn hex(s: &str) -> Vec<u8> {
    (0..s.len() / 2)
        .map(|i| u8::from_str_radix(&s[2 * i..2 * i + 2], 16).unwrap())
        .collect()
}

fn arr32(v: &[u8]) -> [u8; 32] {
    let mut a = [0u8; 32];
    a.copy_from_slice(v);
    a
}

// RFC 8032, test 1.
const RFC_SECRET: &str = "9d61b19deffd5a60ba844af492ec2cc44449c5697b326919703bac031cae7f60";
const RFC_PUBLIC: &str = "d75a980182b10ab7d54bfed3c964073a0ee172f3daa62325af021a68f707511a";

fn rfc_keypair() -> Keypair {
    Keypair::from_secret(arr32(&hex(RFC_SECRET)))
}

#[test]
fn keygen() {
    let kp = Keypair::from_secret([7u8; 32]);
    let bytes = kp.to_bytes();
    assert_eq!(bytes.len(), 64);
    assert_eq!(&bytes[..32], &[7u8; 32]);
    assert_eq!(&bytes[32..], &kp.pubkey().bytes);
    let shown = encode_base58(&kp.pubkey().bytes.to_vec());
    assert!(!shown.is_empty());
    assert_eq!(decode_base58(&shown).unwrap(), kp.pubkey().bytes.to_vec());
    let literal = bytes_to_array_literal(&bytes);
    assert_eq!(array_literal_to_bytes(&literal).unwrap(), bytes);
}

#[test]
fn airdrop() {
    assert_eq!(
        get_transaction_url("5abc"),
        "https://explorer.solana.com/tx/5abc?cluster=devnet"
    );
}

#[test]
fn transfer_sol() {
    let payer = Keypair::from_secret([1u8; 32]);
    let recipient = Keypair::from_secret([2u8; 32]);
    let checkpoint = [9u8; 32];
    let amount = LAMPORTS_PER_SOL / 2;
    let fee = 5000u64;
    let first = build_transfer_message(&payer.pubkey(), &recipient.pubkey(), amount, &checkpoint);
    let second =
        build_fee_adjusted_transfer(&payer.pubkey(), &recipient.pubkey(), amount, fee, &checkpoint)
            .unwrap();
    assert_eq!(first.account_keys.len(), second.account_keys.len());
    for (a, b) in first.account_keys.iter().zip(second.account_keys.iter()) {
        assert_eq!(a.address.bytes, b.address.bytes);
        assert_eq!(a.is_signer, b.is_signer);
        assert_eq!(a.is_writable, b.is_writable);
    }
    let data = &second.instructions[0].data;
    assert_eq!(&data[..4], &[2, 0, 0, 0]);
    assert_eq!(u64::from_le_bytes(data[4..12].try_into().unwrap()), amount - fee);
    let env = sign(second, &vec![payer]).unwrap();
    assert_eq!(env.signatures.len(), 1);
    assert_eq!(env.status(), EnvelopeStatus::FullySigned);
    assert!(env.verify_signatures());
    assert!(env.check_complete().is_ok());
}

#[test]
fn enroll() {
    let signer = rfc_keypair();
    let program = Address { bytes: [5u8; 32] };
    let seeds = vec![b"prereq".to_vec(), signer.pubkey().bytes.to_vec()];
    let (a, bump_a) = find_program_address(&seeds, &program).unwrap();
    let (b, bump_b) = find_program_address(&seeds, &program).unwrap();
    assert_eq!(a.bytes, b.bytes);
    assert_eq!(bump_a, bump_b);
    assert_ne!(a.bytes, program.bytes);
    assert_ne!(a.bytes, signer.pubkey().bytes);
    let ins = Instruction {
        program_id: program,
        accounts: vec![
            AccountMeta { address: signer.pubkey(), is_signer: true, is_writable: true },
            AccountMeta { address: a, is_signer: false, is_writable: true },
            AccountMeta { address: system_program_id(), is_signer: false, is_writable: false },
        ],
        data: b"viniciuskloppel".to_vec(),
    };
    let message = assemble(vec![ins], &signer.pubkey(), &[3u8; 32]).unwrap();
    assert_eq!(message.account_keys.len(), 4);
    let env = sign(message, &vec![signer]).unwrap();
    assert!(env.verify_signatures());
}

#[test]
fn base58_to_wallet() {
    let wallet = decode_base58("he11owor1d").unwrap();
    assert_eq!(wallet, vec![0x04, 0x30, 0x5e, 0x2b, 0x24, 0x73, 0xf0, 0x58]);
    assert_eq!(bytes_to_array_literal(&wallet), "[4, 48, 94, 43, 36, 115, 240, 88]");
}

#[test]
fn wallet_to_base58() {
    let wallet = array_literal_to_bytes("[4,48, 94 ,43,36,115,240,88]").unwrap();
    assert_eq!(encode_base58(&wallet), "he11owor1d");
}

#[test]
fn get_public_key() {
    let mut bytes = hex(RFC_SECRET);
    bytes.extend(hex(RFC_PUBLIC));
    let kp = Keypair::from_bytes(&bytes).unwrap();
    assert_eq!(kp.pubkey().bytes.to_vec(), hex(RFC_PUBLIC));
    assert_eq!(rfc_keypair().pubkey().bytes.to_vec(), hex(RFC_PUBLIC));
}

#[test]
fn keypair_bytes_rejected() {
    let mut bytes = hex(RFC_SECRET);
    bytes.extend(hex(RFC_PUBLIC));
    bytes[40] ^= 1;
    assert_eq!(Keypair::from_bytes(&bytes).unwrap_err(), KeypairError::Corrupt);
    assert_eq!(Keypair::from_bytes(&vec![1u8; 63]).unwrap_err(), KeypairError::Corrupt);
}

#[test]
fn base58_round_trip_values() {
    for bytes in [vec![], vec![0u8], vec![0, 0, 1], vec![255u8; 32], (0..64u8).collect()] {
        assert_eq!(decode_base58(&encode_base58(&bytes)).unwrap(), bytes);
    }
    assert_eq!(encode_base58(&vec![0, 0, 1]), "112");
}

#[test]
fn base58_rejects_outside_alphabet() {
    assert_eq!(decode_base58("0OIl").unwrap_err(), CodecError::InvalidEncoding);
    assert_eq!(decode_base58("abc0").unwrap_err(), CodecError::InvalidEncoding);
    assert_eq!(decode_base58("é").unwrap_err(), CodecError::InvalidEncoding);
    assert_eq!(decode_base58("").unwrap(), Vec::<u8>::new());
}

#[test]
fn array_literal_round_trip_values() {
    for bytes in [vec![], vec![0u8], vec![9, 10, 99, 100, 255], (0..=255u8).collect()] {
        assert_eq!(array_literal_to_bytes(&bytes_to_array_literal(&bytes)).unwrap(), bytes);
    }
    assert_eq!(bytes_to_array_literal(&vec![]), "[]");
    assert_eq!(bytes_to_array_literal(&vec![0, 7, 255]), "[0, 7, 255]");
}

#[test]
fn array_literal_malformed() {
    for text in ["", "[", "1, 2]", "[1, 2", "[256]", "[1,,2]", "[1,]", "[a]", "[1 2]", "[-1]"] {
        assert_eq!(array_literal_to_bytes(text).unwrap_err(), CodecError::MalformedArrayLiteral);
    }
    assert_eq!(array_literal_to_bytes("[ ]").unwrap(), Vec::<u8>::new());
    assert_eq!(array_literal_to_bytes("[007, 255]").unwrap(), vec![7, 255]);
}

#[test]
fn assemble_rejects_empty() {
    let payer = Address { bytes: [1u8; 32] };
    assert_eq!(
        assemble(vec![], &payer, &[0u8; 32]).unwrap_err(),
        AssembleError::EmptyInstructionList
    );
}

#[test]
fn assemble_dedups_in_first_seen_order() {
    let payer = Address { bytes: [1u8; 32] };
    let a = Address { bytes: [2u8; 32] };
    let b = Address { bytes: [3u8; 32] };
    let t1 = build_transfer(&a, &b, 10);
    let t2 = build_transfer(&b, &payer, 20);
    let m = assemble(vec![t1, t2], &payer, &[0u8; 32]).unwrap();
    let keys: Vec<[u8; 32]> = m.account_keys.iter().map(|k| k.address.bytes).collect();
    assert_eq!(keys, vec![[1u8; 32], [2u8; 32], [3u8; 32], [0u8; 32]]);
    let flags: Vec<(bool, bool)> = m.account_keys.iter().map(|k| (k.is_signer, k.is_writable)).collect();
    assert_eq!(flags, vec![(true, true), (true, true), (true, true), (false, false)]);
}

#[test]
fn message_bytes_are_deterministic() {
    let payer = Address { bytes: [1u8; 32] };
    let to = Address { bytes: [2u8; 32] };
    let m1 = assemble(vec![build_transfer(&payer, &to, 77)], &payer, &[4u8; 32]).unwrap();
    let m2 = assemble(vec![build_transfer(&payer, &to, 77)], &payer, &[4u8; 32]).unwrap();
    let b1 = m1.to_bytes();
    assert_eq!(b1, m2.to_bytes());
    // 3 accounts of 34 bytes, one transfer of 128 bytes, counts and checkpoint.
    assert_eq!(b1.len(), 8 + 3 * 34 + 32 + 8 + 128);
    assert_eq!(&b1[..8], &[3, 0, 0, 0, 0, 0, 0, 0]);
    let m3 = assemble(vec![build_transfer(&payer, &to, 78)], &payer, &[4u8; 32]).unwrap();
    assert_ne!(b1, m3.to_bytes());
}

#[test]
fn sign_without_keypairs_is_missing_signer() {
    let payer = Keypair::from_secret([1u8; 32]);
    let to = Address { bytes: [2u8; 32] };
    let m = build_transfer_message(&payer.pubkey(), &to, 5, &[0u8; 32]);
    match sign(m, &vec![]) {
        Err(SignError::MissingSigner(a)) => assert_eq!(a.bytes, payer.pubkey().bytes),
        other => panic!("unexpected result {:?}", other),
    }
}

#[test]
fn sign_with_extra_keypair_is_unexpected_signer() {
    let payer = Keypair::from_secret([1u8; 32]);
    let other = Keypair::from_secret([8u8; 32]);
    let to = Address { bytes: [2u8; 32] };
    let m = build_transfer_message(&payer.pubkey(), &to, 5, &[0u8; 32]);
    match sign(m, &vec![payer, other]) {
        Err(SignError::UnexpectedSigner(a)) => assert_eq!(a.bytes, other.pubkey().bytes),
        other => panic!("unexpected result {:?}", other),
    }
}

#[test]
fn mutated_message_fails_verification() {
    let payer = Keypair::from_secret([1u8; 32]);
    let to = Address { bytes: [2u8; 32] };
    let m = build_transfer_message(&payer.pubkey(), &to, 5, &[0u8; 32]);
    let mut env = sign(m, &vec![payer]).unwrap();
    assert!(env.verify_signatures());
    env.message.checkpoint[0] ^= 1;
    assert!(!env.verify_signatures());
}

#[test]
fn partial_signing_states() {
    let payer = Keypair::from_secret([1u8; 32]);
    let from = Keypair::from_secret([3u8; 32]);
    let to = Address { bytes: [2u8; 32] };
    let ins = build_transfer(&from.pubkey(), &to, 9);
    let m = assemble(vec![ins], &payer.pubkey(), &[0u8; 32]).unwrap();
    let mut env = Envelope::unsigned(m);
    assert_eq!(env.signatures.len(), 2);
    assert_eq!(env.status(), EnvelopeStatus::Unsigned);
    assert_eq!(env.check_complete().unwrap_err(), EnvelopeError::IncompleteSignatures);
    env.partial_sign(&payer).unwrap();
    assert_eq!(env.status(), EnvelopeStatus::PartiallySigned);
    assert!(env.partial_sign(&Keypair::from_secret([4u8; 32])).is_err());
    env.partial_sign(&from).unwrap();
    assert_eq!(env.status(), EnvelopeStatus::FullySigned);
    assert!(env.verify_signatures());
    assert!(env.check_complete().is_ok());
}

#[test]
fn fee_larger_than_amount_is_invalid() {
    assert_eq!(amount_after_fee(10, 3).unwrap(), 7);
    assert_eq!(amount_after_fee(3, 3).unwrap(), 0);
    assert_eq!(amount_after_fee(2, 3).unwrap_err(), TransferError::InvalidAmount);
    let a = Address { bytes: [1u8; 32] };
    assert!(build_fee_adjusted_transfer(&a, &a, 2, 3, &[0u8; 32]).is_err());
}

#[test]
fn long_seed_is_rejected() {
    let program = Address { bytes: [5u8; 32] };
    assert_eq!(
        find_program_address(&vec![vec![0u8; 33]], &program).unwrap_err(),
        DeriveError::SeedTooLong
    );
    assert!(find_program_address(&vec![vec![0u8; 32]], &program).is_ok());
    let (a, _) = find_program_address(&vec![b"a".to_vec()], &program).unwrap();
    let (b, _) = find_program_address(&vec![b"b".to_vec()], &program).unwrap();
    assert_ne!(a.bytes, b.bytes);
}
