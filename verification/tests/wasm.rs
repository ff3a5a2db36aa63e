use wasm_test_runner::assembler::report_on;
use wasm_test_runner::inspector::{classify, ClassificationFailure};
use wasm_test_runner::model::ExecutionKind;
use wasm_test_runner::wasm::{exported_functions, load, read_number, ModuleError};

const HEADER: [u8; 8] = [0x00, 0x61, 0x73, 0x6d, 0x01, 0x00, 0x00, 0x00];

fn number(mut value: u32) -> Vec<u8> {
    let mut bytes = Vec::new();
    loop {
        let low = (value & 0x7f) as u8;
        value >>= 7;
        if value == 0 {
            bytes.push(low);
            return bytes;
        }
        bytes.push(low | 0x80);
    }
}

fn section(id: u8, body: &[u8]) -> Vec<u8> {
    let mut bytes = vec![id];
    bytes.extend(number(body.len() as u32));
    bytes.extend_from_slice(body);
    bytes
}

fn export(name: &[u8], kind: u8, index: u32) -> Vec<u8> {
    let mut bytes = number(name.len() as u32);
    bytes.extend_from_slice(name);
    bytes.push(kind);
    bytes.extend(number(index));
    bytes
}

fn export_section(exports: &[(&[u8], u8, u32)]) -> Vec<u8> {
    let mut body = number(exports.len() as u32);
    for (name, kind, index) in exports {
        body.extend(export(name, *kind, *index));
    }
    section(7, &body)
}

fn module(sections: &[Vec<u8>]) -> Vec<u8> {
    let mut bytes = HEADER.to_vec();
    for s in sections {
        bytes.extend_from_slice(s);
    }
    bytes
}

fn doctest_module() -> Vec<u8> {
    module(&[
        section(1, &[0x01, 0x60, 0x00, 0x00]),
        section(3, &[0x01, 0x00]),
        section(5, &[0x01, 0x00, 0x01]),
        export_section(&[(b"memory", 2, 0), (b"main", 0, 0)]),
        section(10, &[0x01, 0x02, 0x00, 0x0b]),
    ])
}

#[test]
fn numbers_are_read_seven_bits_to_a_byte() {
    assert_eq!(read_number(&[0x00], 0), Some((0, 1)));
    assert_eq!(read_number(&[0x7f], 0), Some((127, 1)));
    assert_eq!(read_number(&[0x80, 0x01], 0), Some((128, 2)));
    assert_eq!(read_number(&[0xe5, 0x8e, 0x26], 0), Some((624485, 3)));
    assert_eq!(read_number(&[0xff, 0xff, 0xff, 0xff, 0x0f], 0), Some((u32::MAX, 5)));
    assert_eq!(read_number(&[0x80, 0x80, 0x80, 0x80, 0x08], 0), Some((1 << 31, 5)));
    for value in [0u32, 1, 63, 64, 127, 128, 255, 300, 16383, 16384, 1 << 21, 1 << 28, u32::MAX] {
        let bytes = number(value);
        assert_eq!(read_number(&bytes, 0), Some((value, bytes.len())));
    }
}

#[test]
fn number_is_read_at_its_offset() {
    let bytes = [0xff, 0x05, 0x80, 0x01, 0x07];
    assert_eq!(read_number(&bytes, 1), Some((5, 2)));
    assert_eq!(read_number(&bytes, 2), Some((128, 4)));
    assert_eq!(read_number(&bytes, 4), Some((7, 5)));
    assert_eq!(read_number(&bytes, 5), None);
    assert_eq!(read_number(&bytes, usize::MAX), None);
}

#[test]
fn number_may_be_padded_with_zero_bytes() {
    assert_eq!(read_number(&[0x80, 0x00], 0), Some((0, 2)));
    assert_eq!(read_number(&[0x81, 0x80, 0x80, 0x80, 0x00], 0), Some((1, 5)));
}

#[test]
fn number_that_is_cut_short_or_too_large_is_none() {
    assert_eq!(read_number(&[], 0), None);
    assert_eq!(read_number(&[0x80], 0), None);
    assert_eq!(read_number(&[0xff, 0xff, 0xff, 0xff], 0), None);
    assert_eq!(read_number(&[0xff, 0xff, 0xff, 0xff, 0x10], 0), None);
    assert_eq!(read_number(&[0xff, 0xff, 0xff, 0xff, 0x1f], 0), None);
    assert_eq!(read_number(&[0x80, 0x80, 0x80, 0x80, 0x80, 0x00], 0), None);
    assert_eq!(read_number(&[0xff, 0xff, 0xff, 0xff, 0xff, 0x01], 0), None);
}

#[test]
fn functions_are_listed_in_the_order_of_the_table() {
    assert_eq!(exported_functions(&doctest_module()), Ok(vec!["main".to_string()]));
    let bytes = module(&[export_section(&[
        (b"__wbgt_b_1", 0, 3),
        (b"memory", 2, 0),
        (b"__wbgt_a_0", 0, 200),
        (b"__heap_base", 3, 1),
        (b"table", 1, 0),
        ("gr\u{fc}\u{df}e".as_bytes(), 0, 70000),
    ])]);
    assert_eq!(
        exported_functions(&bytes),
        Ok(vec!["__wbgt_b_1".to_string(), "__wbgt_a_0".to_string(), "gr\u{fc}\u{df}e".to_string()])
    );
}

#[test]
fn module_without_exports_exports_nothing() {
    assert_eq!(exported_functions(&HEADER), Ok(vec![]));
    assert_eq!(exported_functions(&module(&[section(1, &[0x00])])), Ok(vec![]));
    assert_eq!(exported_functions(&module(&[export_section(&[])])), Ok(vec![]));
    assert_eq!(exported_functions(&module(&[export_section(&[(b"memory", 2, 0)])])), Ok(vec![]));
}

#[test]
fn export_section_is_found_behind_large_sections() {
    let mut custom = number(4);
    custom.extend_from_slice(b"name");
    custom.extend(std::iter::repeat(0xaa).take(300));
    let bytes = module(&[section(0, &custom), export_section(&[(b"main", 0, 0)])]);
    assert_eq!(exported_functions(&bytes), Ok(vec!["main".to_string()]));
}

#[test]
fn first_export_section_counts() {
    let bytes = module(&[
        export_section(&[(b"first", 0, 0)]),
        export_section(&[(b"second", 0, 0)]),
    ]);
    assert_eq!(exported_functions(&bytes), Ok(vec!["first".to_string()]));
}

#[test]
fn empty_name_is_a_name() {
    let bytes = module(&[export_section(&[(b"", 0, 0)])]);
    assert_eq!(exported_functions(&bytes), Ok(vec![String::new()]));
}

#[test]
fn bytes_without_the_header_are_no_module() {
    assert_eq!(exported_functions(&[]), Err(ModuleError::NotAModule));
    assert_eq!(exported_functions(&HEADER[..7]), Err(ModuleError::NotAModule));
    assert_eq!(exported_functions(b"\0asn\x01\0\0\0"), Err(ModuleError::NotAModule));
    assert_eq!(exported_functions(b"\0asm\x02\0\0\0"), Err(ModuleError::NotAModule));
    assert_eq!(exported_functions(b"#!/bin/sh\necho hello\n"), Err(ModuleError::NotAModule));
}

#[test]
fn section_that_runs_over_the_end_is_malformed() {
    let mut bytes = HEADER.to_vec();
    bytes.extend_from_slice(&[0x01, 0x05, 0x00]);
    assert_eq!(exported_functions(&bytes), Err(ModuleError::Malformed));
    let mut bytes = HEADER.to_vec();
    bytes.push(0x07);
    assert_eq!(exported_functions(&bytes), Err(ModuleError::Malformed));
    let mut bytes = HEADER.to_vec();
    bytes.extend_from_slice(&[0x01, 0xff, 0xff, 0xff, 0xff, 0x7f]);
    assert_eq!(exported_functions(&bytes), Err(ModuleError::Malformed));
}

#[test]
fn export_table_that_does_not_fill_its_section_is_malformed() {
    // one export announced, none written
    assert_eq!(exported_functions(&module(&[section(7, &[0x01])])), Err(ModuleError::Malformed));
    // no count at all
    assert_eq!(exported_functions(&module(&[section(7, &[])])), Err(ModuleError::Malformed));
    // a byte behind the last export
    let mut body = vec![0x01];
    body.extend(export(b"main", 0, 0));
    body.push(0x00);
    assert_eq!(exported_functions(&module(&[section(7, &body)])), Err(ModuleError::Malformed));
    // the name runs over the end of the section
    assert_eq!(
        exported_functions(&module(&[section(7, &[0x01, 0x09, b'm', b'a', 0x00, 0x00])])),
        Err(ModuleError::Malformed)
    );
    // the index is missing
    assert_eq!(
        exported_functions(&module(&[section(7, &[0x01, 0x01, b'm', 0x00])])),
        Err(ModuleError::Malformed)
    );
    // the index runs into the next section
    let bytes = module(&[section(7, &[0x01, 0x01, b'm', 0x00, 0x80]), section(1, &[0x00])]);
    assert_eq!(exported_functions(&bytes), Err(ModuleError::Malformed));
}

#[test]
fn function_name_must_be_utf8() {
    let bytes = module(&[export_section(&[(b"ok", 0, 0), (&[0xff, 0xfe], 0, 1)])]);
    assert_eq!(exported_functions(&bytes), Err(ModuleError::NameNotText));
    let bytes = module(&[export_section(&[(&[0xc3], 0, 0)])]);
    assert_eq!(exported_functions(&bytes), Err(ModuleError::NameNotText));
    // what is no function needs no readable name
    let bytes = module(&[export_section(&[(&[0xff, 0xfe], 2, 0), (b"main", 0, 0)])]);
    assert_eq!(exported_functions(&bytes), Ok(vec!["main".to_string()]));
}

#[test]
fn first_fault_in_reading_order_is_reported() {
    let mut body = vec![0x02];
    body.extend(export(&[0xff], 0, 0));
    body.extend_from_slice(&[0x05, b'x']);
    assert_eq!(exported_functions(&module(&[section(7, &body)])), Err(ModuleError::NameNotText));
}

#[test]
fn loaded_module_is_classified_by_its_functions() {
    let artifact = load("doctest.wasm".to_string(), &doctest_module()).unwrap();
    assert_eq!(artifact.path(), "doctest.wasm");
    assert_eq!(artifact.exports(), &vec!["main".to_string()]);
    assert_eq!(classify(&artifact), Ok(ExecutionKind::SingleDoctest));

    let lib = module(&[export_section(&[(b"memory", 2, 0), (b"__wbgt_test_1_0", 0, 4)])]);
    assert_eq!(classify(&load("lib.wasm".to_string(), &lib).unwrap()), Ok(ExecutionKind::Ordinary));

    let merged = module(&[export_section(&[
        (b"__wbgt_test_lib_0", 0, 4),
        (b"doctest_runner_2024::__doctest_0::main", 0, 5),
    ])]);
    assert_eq!(
        classify(&load("merged.wasm".to_string(), &merged).unwrap()),
        Ok(ExecutionKind::MergedDoctest)
    );
}

#[test]
fn exported_memory_named_main_is_no_entry_point() {
    let bytes = module(&[export_section(&[(b"main", 2, 0)])]);
    let artifact = load("m.wasm".to_string(), &bytes).unwrap();
    let classified = classify(&artifact);
    assert_eq!(classified, Err(ClassificationFailure::NoTestsFound));
    let report = report_on(classified, &vec![]);
    assert_eq!(report.text, "no tests to run!\n");
    assert_eq!(report.exit_code, 0);
}

#[test]
fn unreadable_module_is_not_loaded() {
    assert_eq!(load("x".to_string(), b"not wasm"), Err(ModuleError::NotAModule));
    assert_eq!(
        load("x".to_string(), &module(&[section(7, &[0x01])])),
        Err(ModuleError::Malformed)
    );
}
