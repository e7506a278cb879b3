//! Tests for the process locator, the module enumeration, and the
//! end-to-end flow over an in-memory mock process.

use memscan::errors::Errors;
use memscan::types::{ModuleSnapshot, ProcessCandidate, ProcessData};
use memscan::utils::{find_signature, process_modules, MemoryRegion};
use memscan::find_process;

fn candidate(pid: u32, openable: bool, name: &[u8]) -> ProcessCandidate {
    ProcessCandidate {
        pid,
        openable,
        name_buffer: name.to_vec(),
        modules: Vec::new(),
    }
}

#[test]
fn found_process() {
    let mut c = candidate(42, true, b"svchost.exe\0");
    c.modules.push(ModuleSnapshot {
        name_buffer: b"svchost.exe\0".to_vec(),
        base_address: 0x0040_0000,
        image_size: 0x1000,
    });
    let candidates = vec![c];
    assert!(!find_process(&candidates, "svchost.exe").unwrap().is_empty())
}

#[test]
fn not_found_process() {
    let candidates = vec![candidate(42, true, b"svchost.exe\0")];
    assert_eq!(
        find_process(&candidates, "").err().unwrap(),
        Errors::ProcessNotFound
    )
}

#[test]
fn empty_target_fails_before_enumeration() {
    // Even a candidate whose raw name is empty does not match an empty
    // target: the empty target is rejected outright.
    let candidates = vec![candidate(7, true, b"\0")];
    assert_eq!(
        find_process(&candidates, "").err().unwrap(),
        Errors::ProcessNotFound
    );
}

#[test]
fn match_is_case_insensitive_and_reports_the_identifier() {
    let candidates = vec![
        candidate(4, true, b"System\0"),
        candidate(1234, true, b"SVCHOST.EXE\0"),
    ];
    let record = find_process(&candidates, "SvcHost.exe").unwrap();
    assert_ne!(record.id, 0);
    assert_eq!(record.id, 1234);
    assert_eq!(record.name, "svchost.exe");
}

#[test]
fn zero_identifiers_are_skipped() {
    let candidates = vec![
        candidate(0, true, b"target.exe\0"),
        candidate(55, true, b"target.exe\0"),
    ];
    assert_eq!(find_process(&candidates, "target.exe").unwrap().id, 55);
}

#[test]
fn unopenable_processes_are_skipped() {
    let candidates = vec![
        candidate(11, false, b"target.exe\0"),
        candidate(22, true, b"target.exe\0"),
    ];
    assert_eq!(find_process(&candidates, "target.exe").unwrap().id, 22);
}

#[test]
fn first_of_several_matches_wins() {
    let candidates = vec![
        candidate(10, true, b"worker.exe\0"),
        candidate(20, true, b"worker.exe\0"),
    ];
    assert_eq!(find_process(&candidates, "worker.exe").unwrap().id, 10);
}

#[test]
fn undecodable_names_are_skipped() {
    let candidates = vec![
        candidate(9, true, b"\xFF\xFE\0"),
        candidate(77, true, b"clean.exe\0"),
    ];
    assert_eq!(find_process(&candidates, "clean.exe").unwrap().id, 77);
}

#[test]
fn absent_name_is_not_found() {
    let candidates = vec![candidate(5, true, b"other.exe\0")];
    assert_eq!(
        find_process(&candidates, "missing.exe").err().unwrap(),
        Errors::ProcessNotFound
    );
}

#[test]
fn modules_keep_enumeration_order_and_duplicates() {
    let mut pd = ProcessData { id: 1, name: String::from("app.exe"), module_list: Vec::new() };
    let modules = vec![
        ModuleSnapshot {
            name_buffer: b"App.exe\0".to_vec(),
            base_address: 0x1000,
            image_size: 0x100,
        },
        ModuleSnapshot {
            name_buffer: b"Dup.dll\0".to_vec(),
            base_address: 0x2000,
            image_size: 0x200,
        },
        ModuleSnapshot {
            name_buffer: b"dup.DLL\0".to_vec(),
            base_address: 0x3000,
            image_size: 0x300,
        },
    ];
    process_modules(&mut pd, &modules);
    assert_eq!(pd.module_list.len(), 3);
    assert_eq!(pd.module_list[0].module_name, "app.exe");
    assert_eq!(pd.module_list[0].module_addr, 0x1000);
    assert_eq!(pd.module_list[0].module_size, 0x100);
    assert_eq!(pd.module_list[1].module_name, "dup.dll");
    assert_eq!(pd.module_list[1].module_addr, 0x2000);
    assert_eq!(pd.module_list[2].module_name, "dup.dll");
    assert_eq!(pd.module_list[2].module_addr, 0x3000);
}

#[test]
fn undecodable_module_name_falls_back_to_the_placeholder() {
    let mut pd = ProcessData { id: 1, name: String::from("app.exe"), module_list: Vec::new() };
    let modules = vec![ModuleSnapshot {
        name_buffer: b"\xFF\0".to_vec(),
        base_address: 0x1000,
        image_size: 0x100,
    }];
    process_modules(&mut pd, &modules);
    assert_eq!(pd.module_list[0].module_name, "<Module Name>");
}

#[test]
fn end_to_end_mock_process_scan() {
    // An in-memory mock process: one module at 0x0040_0000 of size 0x2000,
    // with a pattern planted at offset 0x123 of the module image.
    let module_base: usize = 0x0040_0000;
    let module_size: usize = 0x2000;
    let planted_offset: usize = 0x123;
    let mut c = candidate(4242, true, b"Game.exe\0");
    c.modules.push(ModuleSnapshot {
        name_buffer: b"Game.exe\0".to_vec(),
        base_address: module_base,
        image_size: module_size,
    });
    let candidates = vec![candidate(8, true, b"other.exe\0"), c];

    let record = find_process(&candidates, "game.exe").unwrap();
    assert_eq!(record.id, 4242);
    assert_eq!(record.name, "game.exe");
    let module = &record.module_list[0];
    assert_eq!(module.module_name, "game.exe");
    assert_eq!(module.module_addr, module_base);
    assert_eq!(module.module_size, module_size);

    let mut image = vec![0u8; module_size];
    image[planted_offset] = 0x48;
    image[planted_offset + 1] = 0x8B;
    image[planted_offset + 2] = 0x05;
    image[planted_offset + 3] = 0x77;
    let regions = vec![MemoryRegion {
        base_address: module.module_addr,
        region_size: module.module_size,
        free: false,
        data: image,
    }];
    let sign = [0x48u8, 0x8B, 0x05, 0x00];
    let found = find_signature(&regions, module.module_size, &sign, "xxx?").unwrap();
    assert_eq!(found, module_base + planted_offset);
}
