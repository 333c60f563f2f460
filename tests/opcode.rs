use opcode::opcode::{Error, OpCode};

#[test]
fn tst_parse() {
    assert_eq!(OpCode::parse(0, 1), Ok(OpCode::Add(0)));
    assert_eq!(OpCode::parse(0, 2), Ok(OpCode::Mul(0)));
    assert_eq!(OpCode::parse(0, 99), Ok(OpCode::Halt));
    assert_eq!(OpCode::parse(0, 1337), Err(Error::InvalidOpCode));
}

#[test]
fn tst_check_indices_ok() {
    let mut cmd_list: Vec<usize> = vec![0, 1, 2, 3, 3, 2, 1];
    let (args, result, next_opcode) = OpCode::check_indices(&mut cmd_list, 0, 4).unwrap();
    assert_eq!(vec![1, 2, 3, 3], args);
    assert_eq!(2, result);
    assert_eq!(6, next_opcode);
}

#[test]
fn tst_check_indices_args_indices() {
    let mut cmd_list: Vec<usize> = vec![0, 0, 0];
    assert_eq!(
        Err(Error::MissingArgs),
        OpCode::check_indices(&mut cmd_list, 0, 3)
    );
}

#[test]
fn tst_check_indices_args_values() {
    let mut cmd_list: Vec<usize> = vec![0, 8, 0, 0];
    assert_eq!(
        Err(Error::InvalidArgIndices),
        OpCode::check_indices(&mut cmd_list, 0, 1)
    );
}

#[test]
fn tst_check_indices_next_opcode() {
    let mut cmd_list: Vec<usize> = vec![0, 0];
    assert_eq!(
        Err(Error::NoNextOpCode),
        OpCode::check_indices(&mut cmd_list, 0, 0)
    );
}

#[test]
fn tst_check_indices_result() {
    let mut cmd_list: Vec<usize> = vec![0];
    assert_eq!(
        Err(Error::MissingResult),
        OpCode::check_indices(&mut cmd_list, 0, 0)
    );

    let mut cmd_list: Vec<usize> = vec![0, 3, 1];
    assert_eq!(
        Err(Error::InvalidResult),
        OpCode::check_indices(&mut cmd_list, 0, 0)
    );
}

#[test]
fn check_indices_leaves_list_unchanged() {
    let mut cmd_list: Vec<usize> = vec![1, 0, 0, 3, 99];
    let r = OpCode::check_indices(&mut cmd_list, 0, 2);
    assert_eq!(Ok((vec![0, 0], 3, 4)), r);
    assert_eq!(vec![1, 0, 0, 3, 99], cmd_list);
}

#[test]
fn check_indices_invalid_arg_before_missing_arg() {
    // The first argument slot names index 9, the second slot is missing.
    let mut cmd_list: Vec<usize> = vec![1, 9];
    assert_eq!(
        Err(Error::InvalidArgIndices),
        OpCode::check_indices(&mut cmd_list, 0, 2)
    );
}

#[test]
fn check_indices_past_the_end() {
    let mut cmd_list: Vec<usize> = vec![1, 0, 0];
    assert_eq!(
        Err(Error::MissingArgs),
        OpCode::check_indices(&mut cmd_list, 10, 2)
    );
    assert_eq!(
        Err(Error::MissingResult),
        OpCode::check_indices(&mut cmd_list, usize::MAX, 0)
    );
}

#[test]
fn new_decodes_each_opcode() {
    let tst_vec = vec![1, 2, 3, 4, 2, 3, 4, 5, 99];
    assert_eq!(OpCode::new(0, &tst_vec), Ok(OpCode::Add(0)));
    assert_eq!(OpCode::new(4, &tst_vec), Ok(OpCode::Mul(4)));
    assert_eq!(OpCode::new(8, &tst_vec), Ok(OpCode::Halt));
    assert_eq!(OpCode::new(2, &tst_vec), Err(Error::InvalidOpCode));
    assert_eq!(OpCode::new(100, &tst_vec), Err(Error::NoOpCode));
    assert_eq!(OpCode::new(0, &[]), Err(Error::NoOpCode));
}

#[test]
fn decoding_in_bounds_never_fails_otherwise() {
    let tst_vec: Vec<usize> = vec![0, 1, 2, 3, 98, 99, 100, usize::MAX];
    for idx in 0..tst_vec.len() {
        match OpCode::new(idx, &tst_vec) {
            Ok(OpCode::Add(at)) | Ok(OpCode::Mul(at)) => assert_eq!(at, idx),
            Ok(OpCode::Halt) => assert_eq!(tst_vec[idx], 99),
            Err(e) => assert_eq!(e, Error::InvalidOpCode),
        }
    }
}

#[test]
fn execute_step_by_step() {
    let mut tst_cmd_list = vec![1, 0, 0, 3, 2, 0, 3, 6, 99];

    let operation = OpCode::new(0, &tst_cmd_list).unwrap();
    let new_idx = operation.execute(&mut tst_cmd_list).unwrap().unwrap();
    assert_eq!(new_idx, 4);
    assert_eq!(tst_cmd_list[..], [1, 0, 0, 2, 2, 0, 3, 6, 99]);

    let exp = [1, 0, 0, 2, 2, 0, 2, 6, 99];
    let operation = OpCode::new(new_idx, &tst_cmd_list).unwrap();
    let new_idx = operation.execute(&mut tst_cmd_list).unwrap().unwrap();
    assert_eq!(new_idx, 8);
    assert_eq!(tst_cmd_list[..], exp);

    let operation = OpCode::new(new_idx, &tst_cmd_list).unwrap();
    let new_idx = operation.execute(&mut tst_cmd_list).unwrap();
    assert_eq!(new_idx, None);
    assert_eq!(tst_cmd_list[..], exp);
}

#[test]
fn execute_writes_only_the_result_slot() {
    let before: Vec<usize> = vec![2, 5, 6, 7, 99, 3, 4, 0];
    let mut after = before.clone();
    assert_eq!(OpCode::Mul(0).execute(&mut after), Ok(Some(4)));
    for i in 0..before.len() {
        if i == 7 {
            assert_eq!(after[i], 12);
        } else {
            assert_eq!(after[i], before[i]);
        }
    }
}

#[test]
fn execute_add_and_mul_values() {
    let mut v: Vec<usize> = vec![1, 5, 6, 0, 99, 20, 22];
    assert_eq!(OpCode::Add(0).execute(&mut v), Ok(Some(4)));
    assert_eq!(v, vec![42, 5, 6, 0, 99, 20, 22]);
    let mut w: Vec<usize> = vec![2, 5, 6, 0, 99, 20, 22];
    assert_eq!(OpCode::Mul(0).execute(&mut w), Ok(Some(4)));
    assert_eq!(w, vec![440, 5, 6, 0, 99, 20, 22]);
}

#[test]
fn execute_overflow_is_an_error() {
    let mut v: Vec<usize> = vec![1, 5, 5, 0, 99, usize::MAX];
    assert_eq!(OpCode::Add(0).execute(&mut v), Err(Error::Overflow));
    assert_eq!(v, vec![1, 5, 5, 0, 99, usize::MAX]);
    let mut w: Vec<usize> = vec![2, 5, 5, 0, 99, usize::MAX / 2 + 1];
    assert_eq!(OpCode::Mul(0).execute(&mut w), Err(Error::Overflow));
}

#[test]
fn execute_halt_changes_nothing() {
    let mut v: Vec<usize> = vec![99, 1, 2];
    assert_eq!(OpCode::Halt.execute(&mut v), Ok(None));
    assert_eq!(v, vec![99, 1, 2]);
}

#[test]
fn process_examples() {
    let tst_cmd_list = vec![1, 0, 0, 3, 2, 0, 3, 6, 99, 1, 0, 1, 4];
    assert_eq!(
        Ok(vec![1, 0, 0, 2, 2, 0, 2, 6, 99, 1, 0, 1, 4]),
        OpCode::process(tst_cmd_list)
    );

    let out_of_bounds_list = vec![1, 0, 0, 100, 2, 0, 3, 6, 99];
    assert_eq!(Err(Error::InvalidResult), OpCode::process(out_of_bounds_list));

    let invalid_opcode_list = vec![42, 1, 2, 3, 99];
    assert_eq!(Err(Error::InvalidOpCode), OpCode::process(invalid_opcode_list));

    let too_short_list = vec![1, 0];
    assert_eq!(Err(Error::MissingArgs), OpCode::process(too_short_list));
}

#[test]
fn process_worked_example() {
    assert_eq!(
        OpCode::process(vec![1, 0, 0, 3, 2, 0, 3, 6, 99]),
        Ok(vec![1, 0, 0, 2, 2, 0, 2, 6, 99])
    );
}

#[test]
fn process_empty_intcode() {
    assert_eq!(OpCode::process(vec![]), Err(Error::NoOpCode));
}

#[test]
fn process_halt_only() {
    assert_eq!(OpCode::process(vec![99]), Ok(vec![99]));
}

#[test]
fn process_long_chain_ends_in_error() {
    let mut v: Vec<usize> = Vec::new();
    for _ in 0..2500 {
        v.extend_from_slice(&[2, 1, 1, 1]);
    }
    assert_eq!(v.len(), 10_000);
    assert_eq!(OpCode::process(v), Err(Error::NoNextOpCode));

    let mut w: Vec<usize> = Vec::new();
    for _ in 0..5000 {
        w.extend_from_slice(&[1, 0, 0, 0]);
    }
    assert_eq!(OpCode::process(w), Err(Error::Overflow));
}

#[test]
fn error_names() {
    assert_eq!(Error::InvalidOpCode.name(), "InvalidOpCode");
    assert_eq!(Error::NoOpCode.name(), "NoOpCode");
    assert_eq!(Error::NoNextOpCode.name(), "NoNextOpCode");
    assert_eq!(Error::MissingArgs.name(), "MissingArgs");
    assert_eq!(Error::InvalidArgIndices.name(), "InvalidArgIndices");
    assert_eq!(Error::MissingResult.name(), "MissingResult");
    assert_eq!(Error::InvalidResult.name(), "InvalidResult");
    assert_eq!(Error::Overflow.name(), "Overflow");
    assert_eq!(format!("{:?}", Error::MissingArgs), Error::MissingArgs.name());
}
