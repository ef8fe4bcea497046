use fluxi::metadata::{image_info_from_members, read_image_info};
use fluxi::packer::{
    build_metadata, build_stub, calculate_total_size, count_files, launcher_script,
    metadata_members, progress, scan_size, zip_entry_name, PackConfig, PackError, PathScan,
};

fn config() -> PackConfig {
    PackConfig {
        files: vec!["a.exe".to_string()],
        output_path: "out.exe".to_string(),
        app_name: "My App".to_string(),
        app_version: "2.1".to_string(),
        entry_point: "a.exe".to_string(),
    }
}

#[test]
fn stub_for_app() {
    let expected = "@echo off\r\n:: Fluxi Portable Launcher — by Fluxionics\r\nsetlocal\r\nset \"TMP_DIR=%TEMP%\\fluxi_my_app\"\r\nif not exist \"%TMP_DIR%\" mkdir \"%TMP_DIR%\"\r\npowershell -NoProfile -Command \"Expand-Archive -Force -Path '%~f0' -DestinationPath '%TMP_DIR%'\"\r\nstart \"\" /wait \"%TMP_DIR%\\run.exe\"\r\nrd /s /q \"%TMP_DIR%\"\r\nendlocal\r\nexit /b\r\n";
    assert_eq!(build_stub("run.exe", "My App"), expected);
}

#[test]
fn stub_name_is_lowercased_and_underscored() {
    let stub = build_stub("x.exe", "  Big TOOL ");
    assert!(stub.contains("fluxi___big_tool_\""));
    let script = launcher_script("x.exe", "Keep Case");
    assert!(script.contains("fluxi_Keep_Case\""));
}

#[test]
fn entry_names_use_slashes() {
    assert_eq!(zip_entry_name("dir\\sub\\f.txt"), "dir/sub/f.txt");
    assert_eq!(zip_entry_name("plain/name"), "plain/name");
}

#[test]
fn sizes_and_counts() {
    let scans = vec![
        PathScan::File { size: 10 },
        PathScan::Dir { file_sizes: vec![1, 2, 3] },
        PathScan::Other,
        PathScan::Dir { file_sizes: vec![] },
    ];
    assert_eq!(count_files(&scans), 4);
    assert_eq!(calculate_total_size(&scans), 16);
    assert_eq!(scan_size(&scans[1]), 6);
    assert_eq!(scan_size(&PathScan::Other), 0);
    assert_eq!(count_files(&[]), 0);
    assert_eq!(calculate_total_size(&[]), 0);
}

#[test]
fn progress_is_kept() {
    let ev = progress(150, "Comprimiendo: a", "a");
    assert_eq!(ev.percent, 150);
    assert_eq!(ev.message, "Comprimiendo: a");
}

#[test]
fn metadata_members_in_order() {
    let (text, numbers) = metadata_members(&config(), 500, 3, 1_700_000_000);
    let keys: Vec<&str> = text.iter().map(|(k, _)| k.as_str()).collect();
    assert_eq!(keys, vec!["app_name", "app_version", "entry_point", "packed_by", "brand", "license"]);
    assert_eq!(text[3].1, "Fluxi v1.0.0");
    assert_eq!(text[4].1, "Fluxionics");
    assert_eq!(text[5].1, "Apache-2.0");
    assert_eq!(
        numbers,
        vec![
            ("original_size".to_string(), 500),
            ("total_files".to_string(), 3),
            ("timestamp".to_string(), 1_700_000_000)
        ]
    );
}

#[test]
fn metadata_json_text() {
    let bytes = build_metadata(&config(), 500, 3, 1_700_000_000).unwrap();
    let text = String::from_utf8(bytes).unwrap();
    assert_eq!(
        text,
        "{\"app_name\":\"My App\",\"app_version\":\"2.1\",\"brand\":\"Fluxionics\",\"entry_point\":\"a.exe\",\"license\":\"Apache-2.0\",\"original_size\":500,\"packed_by\":\"Fluxi v1.0.0\",\"timestamp\":1700000000,\"total_files\":3}"
    );
}

#[test]
fn metadata_reads_back_name() {
    let bytes = build_metadata(&config(), 1, 1, 1).unwrap();
    let info = read_image_info(&bytes);
    assert_eq!(info.app_name, "My App");
    assert!(!info.encrypted);
}

#[test]
fn metadata_defaults() {
    let info = read_image_info(b"not json");
    assert_eq!(info.app_name, "Unknown");
    assert!(!info.encrypted);
    let info = read_image_info(b"{\"app_name\":7,\"encrypted\":true}");
    assert_eq!(info.app_name, "Unknown");
    assert!(info.encrypted);
    let info = read_image_info(b"[1,2]");
    assert_eq!(info.app_name, "Unknown");
}

#[test]
fn pack_error_texts() {
    assert_eq!(
        PackError::NotFound { path: "a.txt".to_string() }.message(),
        "Archivo no encontrado: a.txt"
    );
    assert_eq!(PackError::Io { message: "boom".to_string() }.message(), "boom");
}

#[test]
fn image_info_defaults_from_members() {
    let info = image_info_from_members(None, None);
    assert_eq!(info.app_name, "Unknown");
    assert!(!info.encrypted);
    let info = image_info_from_members(Some("Tool".to_string()), Some(true));
    assert_eq!(info.app_name, "Tool");
    assert!(info.encrypted);
}

#[test]
fn ascii_names_normalize_alike() {
    let a = build_stub("run.exe", "My App");
    assert_eq!(build_stub("run.exe", "my app"), a);
    assert_eq!(build_stub("run.exe", "My_App"), a);
}

#[test]
fn launcher_waits_then_removes_its_folder() {
    let s = build_stub("run.exe", "Tool");
    let run = s.find("start \"\" /wait").unwrap();
    let rd = s.find("rd /s /q \"%TMP_DIR%\"").unwrap();
    let end = s.find("endlocal").unwrap();
    assert!(run < rd && rd < end);
}

#[test]
fn no_files_no_bytes() {
    let scans = vec![PathScan::Other, PathScan::Dir { file_sizes: vec![] }];
    assert_eq!(count_files(&scans), 0);
    assert_eq!(calculate_total_size(&scans), 0);
}
