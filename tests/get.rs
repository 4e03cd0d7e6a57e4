use std::collections::HashMap;

use snarkvm_ledger::ledger::{Block, Ledger, LedgerError, Transaction, Transactions, Transition};
use snarkvm_ledger::network::Network;
use snarkvm_ledger::scan::{serial_number, tag, OutputRecordsFilter};
use snarkvm_ledger::types::{
    Address, Field, GraphKey, Group, Header, Output, PlaintextRecord, PrivateKey, Record, Scalar,
    Signature, ViewKey,
};

fn field(v: u64) -> Field {
    Field { l0: v, l1: 0, l2: 0, l3: 0 }
}

fn scalar(v: u64) -> Scalar {
    Scalar { value: field(v) }
}

fn group(x: u64, y: u64) -> Group {
    Group { x: field(x), y: field(y) }
}

/// A toy network: simple arithmetic in place of the real primitives. The hash
/// to the curve fails on the input 0.
struct Toy;

impl Toy {
    fn mix(a: u64, b: u64) -> u64 {
        a.wrapping_mul(0x9e37_79b9_7f4a_7c15).rotate_left(17) ^ b.wrapping_add(0x51)
    }
}

impl Network for Toy {
    fn serial_number_domain_spec() -> Field {
        Self::serial_number_domain()
    }
    fn serial_number_domain() -> Field {
        field(0x5eed)
    }
    fn hash_psd2_spec(a: Field, b: Field) -> Option<Field> {
        Self::hash_psd2(a, b)
    }
    fn hash_psd2(a: Field, b: Field) -> Option<Field> {
        Some(field(Toy::mix(a.l0, b.l0)))
    }
    fn hash_to_group_psd2_spec(domain: Field, input: Field) -> Option<Group> {
        Self::hash_to_group_psd2(domain, input)
    }
    fn hash_to_group_psd2(domain: Field, input: Field) -> Option<Group> {
        if input.l0 == 0 {
            None
        } else {
            let x = Toy::mix(domain.l0, input.l0);
            Some(group(x, Toy::mix(x, 1)))
        }
    }
    fn hash_to_scalar_psd2_spec(domain: Field, input: Field) -> Option<Scalar> {
        Self::hash_to_scalar_psd2(domain, input)
    }
    fn hash_to_scalar_psd2(domain: Field, input: Field) -> Option<Scalar> {
        Some(scalar(Toy::mix(input.l0, domain.l0)))
    }
    fn commit_bhp512_spec(domain: Field, message: Field, randomness: Scalar) -> Option<Field> {
        Self::commit_bhp512(domain, message, randomness)
    }
    fn commit_bhp512(domain: Field, message: Field, randomness: Scalar) -> Option<Field> {
        Some(field(Toy::mix(Toy::mix(domain.l0, message.l0), randomness.value.l0)))
    }
    fn scalar_mul_spec(g: Group, s: Scalar) -> Group {
        Self::scalar_mul(g, s)
    }
    fn scalar_mul(g: Group, s: Scalar) -> Group {
        group(g.x.l0.wrapping_mul(s.value.l0), g.y.l0.wrapping_mul(s.value.l0))
    }
    fn mul_by_cofactor_spec(g: Group) -> Group {
        Self::mul_by_cofactor(g)
    }
    fn mul_by_cofactor(g: Group) -> Group {
        group(g.x.l0.wrapping_mul(4), g.y.l0.wrapping_mul(4))
    }
    fn to_address_spec(view_key: ViewKey) -> Address {
        Self::to_address(&view_key)
    }
    fn to_address(view_key: &ViewKey) -> Address {
        Address { group: group(view_key.scalar.value.l0.wrapping_mul(3), 11) }
    }
    fn is_owner_spec(record: Record, address: Address, view_key: ViewKey) -> bool {
        Self::is_owner(&record, &address, &view_key)
    }
    fn is_owner(record: &Record, address: &Address, view_key: &ViewKey) -> bool {
        record.owner.l0 ^ view_key.scalar.value.l0 == address.group.x.l0
    }
    fn decrypt_spec(record: Record, view_key: ViewKey) -> Option<PlaintextRecord> {
        Self::decrypt(&record, &view_key)
    }
    fn decrypt(record: &Record, view_key: &ViewKey) -> Option<PlaintextRecord> {
        if record.data.l1 != 0 {
            return None;
        }
        Some(PlaintextRecord {
            owner: Toy::to_address(view_key),
            gates: record.gates.l0 ^ view_key.scalar.value.l0,
            data: record.data,
            nonce: record.nonce,
        })
    }
}

fn view_key(v: u64) -> ViewKey {
    ViewKey { scalar: scalar(v) }
}

fn private_key(v: u64) -> PrivateKey {
    PrivateKey { seed: field(v), sk_sig: scalar(v + 1), r_sig: scalar(v + 2) }
}

fn graph_key(v: u64) -> GraphKey {
    GraphKey { sk_tag: group(v, v + 5) }
}

/// A record that `view_key(v)` owns and decrypts, carrying `gates` gates.
fn owned_record(v: u64, gates: u64, data: u64) -> Record {
    let vk = view_key(v);
    let address = Toy::to_address(&vk);
    Record {
        owner: field(address.group.x.l0 ^ v),
        gates: field(gates ^ v),
        data: field(data),
        nonce: group(data, gates),
    }
}

fn header(height: u32) -> Header {
    Header {
        previous_state_root: field(100 + height as u64),
        transactions_root: field(200 + height as u64),
        network: 3,
        height,
        round: height as u64 + 1,
        timestamp: 1_663_718_400 + height as i64,
    }
}

fn signature(height: u32) -> Signature {
    Signature { challenge: scalar(300 + height as u64), response: scalar(400), compute_key: group(5, 6) }
}

fn block_with(height: u32, outputs: Vec<Output>) -> Block {
    Block {
        previous_hash: field(900 + height as u64),
        header: header(height),
        transactions: Transactions {
            transactions: vec![Transaction {
                id: field(700 + height as u64),
                transitions: vec![Transition { id: field(800 + height as u64), outputs }],
            }],
        },
        signature: signature(height),
    }
}

fn genesis_block() -> Block {
    let r = owned_record(42, 1_000, 7);
    block_with(0, vec![Output { commitment: field(0xc0), record: r }])
}

/// A ledger of three blocks: heights 0, 1, 2, where block `h` has hash `1000 + h`.
fn three_block_ledger() -> Ledger {
    let mut ledger = Ledger::new(genesis_block(), field(1000));
    for h in 1u32..3 {
        let b = block_with(h, vec![Output { commitment: field(0xc0 + h as u64), record: owned_record(42, 10 * h as u64, 7) }]);
        ledger.previous_hashes.insert(h, field(1000 + h as u64 - 1));
        ledger.headers.insert(h, b.header);
        ledger.transactions.insert(h, b.transactions);
        ledger.signatures.insert(h, b.signature);
    }
    ledger.current_height = 2;
    ledger.current_hash = field(1002);
    ledger
}

#[test]
fn test_get_block() {
    // Load the genesis block.
    let genesis = genesis_block();

    // Initialize a new ledger.
    let ledger = Ledger::new(genesis_block(), field(1000));
    // Retrieve the genesis block.
    let candidate = ledger.get_block(0).unwrap();
    // Ensure the genesis block matches.
    assert_eq!(genesis, candidate);
}

#[test]
fn block_parts_match_the_accessors() {
    let ledger = three_block_ledger();
    for h in 0u32..3 {
        let b = ledger.get_block(h).unwrap();
        assert_eq!(b.previous_hash, ledger.get_previous_hash(h).unwrap());
        assert_eq!(b.header, ledger.get_header(h).unwrap());
        assert_eq!(&b.transactions, ledger.get_transactions(h).unwrap());
        assert_eq!(b.signature, ledger.get_signature(h).unwrap());
        assert_eq!(b.header.height, h);
    }
}

#[test]
fn get_block_reports_the_first_missing_part() {
    let mut ledger = three_block_ledger();
    ledger.headers.remove(&1);
    ledger.signatures.remove(&1);
    assert_eq!(ledger.get_block(1), Err(LedgerError::MissingHeader { height: 1 }));
    ledger.previous_hashes.remove(&2);
    assert_eq!(ledger.get_block(2), Err(LedgerError::MissingPreviousHash { height: 2 }));
    ledger.transactions.remove(&0);
    assert_eq!(ledger.get_block(0), Err(LedgerError::MissingTransactions { height: 0 }));
    let mut ledger = three_block_ledger();
    ledger.signatures.remove(&2);
    assert_eq!(ledger.get_block(2), Err(LedgerError::MissingSignature { height: 2 }));
    assert_eq!(ledger.get_block(3), Err(LedgerError::MissingPreviousHash { height: 3 }));
}

#[test]
fn hash_chain_is_offset_by_one() {
    let ledger = three_block_ledger();
    assert_eq!(ledger.get_hash(0), Ok(field(1000)));
    assert_eq!(ledger.get_hash(1), Ok(field(1001)));
    assert_eq!(ledger.get_hash(2), Ok(field(1002)));
    assert_eq!(ledger.get_hash(0), ledger.get_previous_hash(1));
    assert_eq!(ledger.get_hash(1), ledger.get_previous_hash(2));
    assert_eq!(ledger.get_previous_hash(0), Ok(field(900)));
}

#[test]
fn hash_above_the_tip_fails() {
    let ledger = three_block_ledger();
    assert_eq!(ledger.get_hash(3), Err(LedgerError::HeightAboveTip { height: 3, current_height: 2 }));
    assert_eq!(
        ledger.get_hash(u32::MAX),
        Err(LedgerError::HeightAboveTip { height: u32::MAX, current_height: 2 })
    );
    let mut ledger = three_block_ledger();
    ledger.previous_hashes.remove(&2);
    assert_eq!(ledger.get_hash(1), Err(LedgerError::MissingHash { height: 1 }));
}

#[test]
fn missing_entries_are_reported_per_field() {
    let ledger = three_block_ledger();
    assert_eq!(ledger.get_header(5), Err(LedgerError::MissingHeader { height: 5 }));
    assert_eq!(ledger.get_transactions(5), Err(LedgerError::MissingTransactions { height: 5 }));
    assert_eq!(ledger.get_signature(5), Err(LedgerError::MissingSignature { height: 5 }));
    assert_eq!(ledger.get_previous_hash(5), Err(LedgerError::MissingPreviousHash { height: 5 }));
}

fn expected_genesis_record() -> (Field, PlaintextRecord) {
    let vk = view_key(42);
    let r = owned_record(42, 1_000, 7);
    (field(0xc0), Toy::decrypt(&r, &vk).unwrap())
}

#[test]
fn genesis_record_scan() {
    let ledger = Ledger::new(genesis_block(), field(1000));
    let vk = view_key(42);
    let all = ledger.get_output_records::<Toy>(&vk, OutputRecordsFilter::All);
    assert_eq!(all, vec![expected_genesis_record()]);
    assert_eq!(all[0].1.gates, 1_000);
    let k = private_key(42);
    assert_eq!(ledger.get_output_records::<Toy>(&vk, OutputRecordsFilter::AllSpent(k)), vec![]);
    assert_eq!(
        ledger.get_output_records::<Toy>(&vk, OutputRecordsFilter::AllUnspent(k)),
        vec![expected_genesis_record()]
    );
    let g = graph_key(42);
    assert_eq!(ledger.get_output_records::<Toy>(&vk, OutputRecordsFilter::Spent(g)), vec![]);
    assert_eq!(
        ledger.get_output_records::<Toy>(&vk, OutputRecordsFilter::Unspent(g)),
        vec![expected_genesis_record()]
    );
}

#[test]
fn spent_records_move_between_the_filters() {
    let mut ledger = Ledger::new(genesis_block(), field(1000));
    let vk = view_key(42);
    let k = private_key(42);
    let g = graph_key(42);
    ledger.serial_numbers.push(serial_number::<Toy>(&k, field(0xc0)).unwrap());
    ledger.tags.push(tag::<Toy>(&g, field(0xc0)).unwrap());
    assert_eq!(
        ledger.get_output_records::<Toy>(&vk, OutputRecordsFilter::AllSpent(k)),
        vec![expected_genesis_record()]
    );
    assert_eq!(ledger.get_output_records::<Toy>(&vk, OutputRecordsFilter::AllUnspent(k)), vec![]);
    assert_eq!(
        ledger.get_output_records::<Toy>(&vk, OutputRecordsFilter::Spent(g)),
        vec![expected_genesis_record()]
    );
    assert_eq!(ledger.get_output_records::<Toy>(&vk, OutputRecordsFilter::Unspent(g)), vec![]);
}

#[test]
fn records_of_other_keys_are_not_returned() {
    let ledger = Ledger::new(genesis_block(), field(1000));
    let other = view_key(43);
    assert_eq!(ledger.get_output_records::<Toy>(&other, OutputRecordsFilter::All), vec![]);
    assert_eq!(
        ledger.get_output_records::<Toy>(&other, OutputRecordsFilter::AllUnspent(private_key(42))),
        vec![]
    );
}

#[test]
fn failed_derivation_or_decryption_drops_only_that_record() {
    let vk = view_key(42);
    let undecryptable = Record { data: Field { l0: 7, l1: 1, l2: 0, l3: 0 }, ..owned_record(42, 5, 7) };
    let outputs = vec![
        // The hash to the curve fails on commitment 0.
        Output { commitment: field(0), record: owned_record(42, 1, 7) },
        Output { commitment: field(0xd1), record: undecryptable },
        Output { commitment: field(0xd2), record: owned_record(42, 2, 7) },
        Output { commitment: field(0xd3), record: owned_record(41, 3, 7) },
    ];
    let ledger = Ledger::new(block_with(0, outputs), field(1000));
    let all = ledger.get_output_records::<Toy>(&vk, OutputRecordsFilter::All);
    let commitments: Vec<Field> = all.iter().map(|(c, _)| *c).collect();
    assert_eq!(commitments, vec![field(0), field(0xd2)]);
    let unspent = ledger.get_output_records::<Toy>(&vk, OutputRecordsFilter::AllUnspent(private_key(42)));
    let commitments: Vec<Field> = unspent.iter().map(|(c, _)| *c).collect();
    assert_eq!(commitments, vec![field(0xd2)]);
    assert_eq!(unspent[0].1.gates, 2);
}

#[test]
fn scan_covers_every_height_in_order() {
    let ledger = three_block_ledger();
    let vk = view_key(42);
    let all = ledger.get_output_records::<Toy>(&vk, OutputRecordsFilter::All);
    let commitments: Vec<Field> = all.iter().map(|(c, _)| *c).collect();
    assert_eq!(commitments, vec![field(0xc0), field(0xc1), field(0xc2)]);
    let gates: Vec<u64> = all.iter().map(|(_, p)| p.gates).collect();
    assert_eq!(gates, vec![1_000, 10, 20]);
}

#[test]
fn spent_and_unspent_split_the_owned_records() {
    let mut ledger = three_block_ledger();
    let vk = view_key(42);
    let k = private_key(42);
    ledger.serial_numbers.push(serial_number::<Toy>(&k, field(0xc1)).unwrap());
    let all = ledger.get_output_records::<Toy>(&vk, OutputRecordsFilter::All);
    let spent = ledger.get_output_records::<Toy>(&vk, OutputRecordsFilter::AllSpent(k));
    let unspent = ledger.get_output_records::<Toy>(&vk, OutputRecordsFilter::AllUnspent(k));
    assert_eq!(spent, vec![all[1]]);
    assert_eq!(unspent, vec![all[0], all[2]]);
}

#[test]
fn derivations_follow_their_formulas() {
    let k = private_key(42);
    let c = field(0xc0);
    let d = Toy::serial_number_domain();
    let h = Toy::hash_to_group_psd2(d, c).unwrap();
    let gamma = Toy::scalar_mul(h, k.sk_sig);
    let nonce = Toy::hash_to_scalar_psd2(d, Toy::mul_by_cofactor(gamma).x).unwrap();
    assert_eq!(serial_number::<Toy>(&k, c), Toy::commit_bhp512(d, c, nonce));
    assert_eq!(serial_number::<Toy>(&k, field(0)), None);
    let g = graph_key(42);
    assert_eq!(tag::<Toy>(&g, c), Some(field(Toy::mix(42, 0xc0))));
    assert_ne!(tag::<Toy>(&g, c), Some(c));
}

#[test]
fn spend_index_membership() {
    let mut ledger = three_block_ledger();
    ledger.serial_numbers = vec![field(1), field(2)];
    ledger.tags = vec![field(3)];
    assert!(ledger.contains_serial_number(&field(2)));
    assert!(!ledger.contains_serial_number(&field(3)));
    assert!(ledger.contains_tag(&field(3)));
    assert!(!ledger.contains_tag(&field(1)));
}

#[test]
fn schemes_are_tracked_independently() {
    let mut ledger = three_block_ledger();
    let vk = view_key(42);
    let k = private_key(42);
    let g = graph_key(42);
    // Block 1's record is spent under the serial-number scheme only.
    ledger.serial_numbers.push(serial_number::<Toy>(&k, field(0xc1)).unwrap());
    let spent_sn = ledger.get_output_records::<Toy>(&vk, OutputRecordsFilter::AllSpent(k));
    let spent_tag = ledger.get_output_records::<Toy>(&vk, OutputRecordsFilter::Spent(g));
    assert_eq!(spent_sn.len(), 1);
    assert_eq!(spent_sn[0].0, field(0xc1));
    assert_eq!(spent_tag, vec![]);
    // Once the tag index agrees, so do the two scans.
    ledger.tags.push(tag::<Toy>(&g, field(0xc1)).unwrap());
    let spent_tag = ledger.get_output_records::<Toy>(&vk, OutputRecordsFilter::Spent(g));
    assert_eq!(spent_tag, spent_sn);
    assert_eq!(
        ledger.get_output_records::<Toy>(&vk, OutputRecordsFilter::Unspent(g)),
        ledger.get_output_records::<Toy>(&vk, OutputRecordsFilter::AllUnspent(k))
    );
}

#[test]
fn new_ledger_holds_only_the_genesis_block() {
    let ledger = Ledger::new(genesis_block(), field(1000));
    assert_eq!(ledger.current_height, 0);
    assert_eq!(ledger.get_hash(0), Ok(field(1000)));
    assert_eq!(ledger.get_hash(1), Err(LedgerError::HeightAboveTip { height: 1, current_height: 0 }));
    assert_eq!(ledger.get_previous_hash(1), Err(LedgerError::MissingPreviousHash { height: 1 }));
    assert_eq!(ledger.get_block(1), Err(LedgerError::MissingPreviousHash { height: 1 }));
    assert!(ledger.serial_numbers.is_empty() && ledger.tags.is_empty());
}
