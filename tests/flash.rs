use flash_amm::error::EscrowError;
use flash_amm::flash::{
    decode_loan_record, encode_loan_record, get_token_amount, InstructionView, Loan, LoanAccounts,
    LoanData, LoanInstructionData, Repay, RepayAccounts, REPAY_DISCRIMINATOR,
};

const PROGRAM: [u8; 32] = [77u8; 32];
const LOAN: [u8; 32] = [3u8; 32];

fn key(b: u8) -> [u8; 32] {
    [b; 32]
}

fn loan_payload(fee: u16, amounts: &[u64]) -> Vec<u8> {
    let mut v = vec![254u8];
    v.extend_from_slice(&fee.to_le_bytes());
    for a in amounts {
        v.extend_from_slice(&a.to_le_bytes());
    }
    v
}

fn loan_keys(pairs: &[(u8, u8)]) -> Vec<[u8; 32]> {
    let mut v = vec![key(1), key(2), LOAN, key(4), key(5), key(6)];
    for (p, b) in pairs {
        v.push(key(*p));
        v.push(key(*b));
    }
    v
}

fn repay_keys(pairs: &[(u8, u8)]) -> Vec<[u8; 32]> {
    let mut v = vec![key(1), LOAN, key(5)];
    for (p, b) in pairs {
        v.push(key(*p));
        v.push(key(*b));
    }
    v
}

fn repay_instruction() -> InstructionView {
    InstructionView { program_id: PROGRAM, accounts: repay_keys(&[(10, 11)]), data: vec![REPAY_DISCRIMINATOR] }
}

fn loan_instruction() -> InstructionView {
    InstructionView { program_id: PROGRAM, accounts: vec![], data: vec![0] }
}

#[test]
fn token_amount_read_at_offset() {
    let mut data = vec![0u8; 165];
    data[64..72].copy_from_slice(&123_456u64.to_le_bytes());
    assert_eq!(get_token_amount(&data), Ok(123_456));
    assert_eq!(get_token_amount(&data[..71]), Err(EscrowError::InvalidAccountData));
}

#[test]
fn loan_payload_decodes() {
    let l = LoanInstructionData::try_from(&loan_payload(50, &[500, 7])).unwrap();
    assert_eq!((l.bump, l.fee, l.amounts.clone()), ([254], 50, vec![500, 7]));
    assert!(matches!(LoanInstructionData::try_from(&loan_payload(50, &[])), Err(EscrowError::InvalidInstructionData)));
    assert!(matches!(
        LoanInstructionData::try_from(&loan_payload(50, &[1; 11])),
        Err(EscrowError::InvalidInstructionData)
    ));
    let mut ragged = loan_payload(50, &[1]);
    ragged.push(0);
    assert!(matches!(LoanInstructionData::try_from(&ragged), Err(EscrowError::InvalidInstructionData)));
}

#[test]
fn loan_account_refusals() {
    assert!(matches!(LoanAccounts::try_from(&vec![key(1); 5], 0), Err(EscrowError::NotEnoughAccountKeys)));
    assert!(matches!(LoanAccounts::try_from(&loan_keys(&[]), 0), Err(EscrowError::InvalidAccountData)));
    let mut odd = loan_keys(&[(10, 11)]);
    odd.push(key(12));
    assert!(matches!(LoanAccounts::try_from(&odd, 0), Err(EscrowError::InvalidAccountData)));
    assert!(matches!(
        LoanAccounts::try_from(&loan_keys(&[(10, 11), (10, 12)]), 0),
        Err(EscrowError::InvalidAccountData)
    ));
    assert!(matches!(LoanAccounts::try_from(&loan_keys(&[(10, 11)]), 80), Err(EscrowError::InvalidAccountData)));
    let a = LoanAccounts::try_from(&loan_keys(&[(10, 11), (12, 11)]), 0).unwrap();
    assert_eq!(a.token_accounts, vec![key(10), key(11), key(12), key(11)]);
    assert_eq!(a.loan, LOAN);
}

#[test]
fn loan_amounts_must_match_pairs() {
    assert!(matches!(
        Loan::try_from(&loan_payload(50, &[1, 2]), &loan_keys(&[(10, 11)]), 0),
        Err(EscrowError::InvalidInstructionData)
    ));
}

#[test]
fn loan_example_expected_balance_and_free_repay() {
    let loan = Loan::try_from(&loan_payload(50, &[500]), &loan_keys(&[(10, 11)]), 0).unwrap();
    let before = 1_000u64;
    let ixs = vec![loan_instruction(), repay_instruction()];
    let entries = loan.process(&vec![before], &ixs, 0, &PROGRAM).unwrap();
    assert_eq!(entries.len(), 1);
    assert_eq!(entries[0].protocol_token_account, key(10));
    assert_eq!(entries[0].borrower_token_account, key(11));
    assert_eq!(entries[0].expected_balance, before + 2);
    let record = encode_loan_record(&entries);
    let repay = Repay::try_from(&repay_keys(&[(10, 11)])).unwrap();
    assert_eq!(repay.process(&record, &vec![before + 2]), Ok(vec![0]));
}

#[test]
fn loan_then_repay_settles_every_pair() {
    let loan = Loan::try_from(&loan_payload(300, &[1_000, 40]), &loan_keys(&[(10, 11), (12, 13)]), 0).unwrap();
    let before = vec![5u64, 0];
    let ixs = vec![loan_instruction(), repay_instruction()];
    let entries = loan.process(&before, &ixs, 0, &PROGRAM).unwrap();
    assert_eq!(entries[0].expected_balance, 5 + 30);
    assert_eq!(entries[1].expected_balance, 1);
    let record = encode_loan_record(&entries);
    let repay = Repay::try_from(&repay_keys(&[(10, 11), (12, 13)])).unwrap();
    // right after the loan each borrower holds its balance plus the amount
    assert_eq!(repay.process(&record, &vec![1_005, 40]), Ok(vec![0, 0]));
    // a borrower that spent its loan owes the shortfall
    assert_eq!(repay.process(&record, &vec![20, 0]), Ok(vec![15, 1]));
}

#[test]
fn loan_without_repay_fails() {
    let loan = Loan::try_from(&loan_payload(50, &[500]), &loan_keys(&[(10, 11)]), 0).unwrap();
    let only_loan = vec![loan_instruction()];
    assert!(matches!(loan.process(&vec![0], &only_loan, 0, &PROGRAM), Err(EscrowError::MissingRepayInstruction)));
    let other_program = InstructionView { program_id: key(99), ..repay_instruction() };
    assert!(matches!(
        loan.process(&vec![0], &vec![loan_instruction(), other_program], 0, &PROGRAM),
        Err(EscrowError::MissingRepayInstruction)
    ));
    let other_loan = InstructionView { accounts: vec![key(1), key(42)], ..repay_instruction() };
    assert!(matches!(
        loan.process(&vec![0], &vec![loan_instruction(), other_loan], 0, &PROGRAM),
        Err(EscrowError::MissingRepayInstruction)
    ));
    // a repay before the loan does not count
    assert!(matches!(
        loan.process(&vec![0], &vec![repay_instruction(), loan_instruction()], 1, &PROGRAM),
        Err(EscrowError::MissingRepayInstruction)
    ));
}

#[test]
fn loan_without_repay_fails_even_when_a_balance_would_overflow() {
    let loan = Loan::try_from(&loan_payload(100, &[10_000]), &loan_keys(&[(10, 11)]), 0).unwrap();
    assert!(matches!(
        loan.process(&vec![u64::MAX], &vec![loan_instruction()], 0, &PROGRAM),
        Err(EscrowError::MissingRepayInstruction)
    ));
}

#[test]
fn loan_expected_balance_overflow() {
    let loan = Loan::try_from(&loan_payload(100, &[10_000]), &loan_keys(&[(10, 11)]), 0).unwrap();
    let ixs = vec![loan_instruction(), repay_instruction()];
    assert!(matches!(loan.process(&vec![u64::MAX], &ixs, 0, &PROGRAM), Err(EscrowError::ArithmeticOverflow)));
}

#[test]
fn repay_against_other_accounts_fails() {
    let entries = vec![LoanData {
        protocol_token_account: key(10),
        borrower_token_account: key(11),
        expected_balance: 9,
    }];
    let record = encode_loan_record(&entries);
    let swapped = Repay::try_from(&repay_keys(&[(12, 11)])).unwrap();
    assert_eq!(swapped.process(&record, &vec![100]), Err(EscrowError::InvalidAccountData));
    // the recorded protocol account with a borrower account the loan never paid
    let other_borrower = Repay::try_from(&repay_keys(&[(10, 12)])).unwrap();
    assert_eq!(other_borrower.process(&record, &vec![100]), Err(EscrowError::InvalidAccountData));
    let reversed = Repay::try_from(&repay_keys(&[(11, 10)])).unwrap();
    assert_eq!(reversed.process(&record, &vec![100]), Err(EscrowError::InvalidAccountData));
    let more = Repay::try_from(&repay_keys(&[(10, 11), (12, 13)])).unwrap();
    assert_eq!(more.process(&record, &vec![100, 100]), Err(EscrowError::InvalidAccountData));
    let fine = Repay::try_from(&repay_keys(&[(10, 11)])).unwrap();
    assert_eq!(fine.process(&record[..71], &vec![100]), Err(EscrowError::InvalidAccountData));
    assert_eq!(fine.process(&record, &vec![4]), Ok(vec![5]));
}

#[test]
fn repay_account_refusals() {
    assert!(matches!(RepayAccounts::try_from(&vec![key(1); 2]), Err(EscrowError::NotEnoughAccountKeys)));
    assert!(matches!(RepayAccounts::try_from(&repay_keys(&[])), Err(EscrowError::InvalidAccountData)));
    let many: Vec<(u8, u8)> = (0..11).map(|i| (20 + i, 40 + i)).collect();
    assert!(matches!(RepayAccounts::try_from(&repay_keys(&many)), Err(EscrowError::InvalidAccountData)));
}

#[test]
fn loan_record_round_trip() {
    let entries = vec![
        LoanData { protocol_token_account: key(10), borrower_token_account: key(11), expected_balance: 0x0102_0304 },
        LoanData { protocol_token_account: key(12), borrower_token_account: key(13), expected_balance: u64::MAX },
    ];
    let record = encode_loan_record(&entries);
    assert_eq!(record.len(), 144);
    assert_eq!(&record[32..64], &[11u8; 32]);
    let back = decode_loan_record(&record).unwrap();
    assert_eq!(back.len(), 2);
    assert_eq!(
        (back[0].protocol_token_account, back[0].borrower_token_account, back[0].expected_balance),
        (key(10), key(11), 0x0102_0304)
    );
    assert_eq!(
        (back[1].protocol_token_account, back[1].borrower_token_account, back[1].expected_balance),
        (key(12), key(13), u64::MAX)
    );
    assert!(matches!(decode_loan_record(&[]), Err(EscrowError::InvalidAccountData)));
}
