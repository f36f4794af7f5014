use featherpull::binary_manager::{
    check_for_update, find_entry_by_suffix, is_ffmpeg_win64_asset, locate_archive_entry, parse_release_info,
    require_ffmpeg_asset, require_ytdlp_asset, resolve_binary_path, resolve_ffmpeg_path, resolve_ytdlp_path,
    select_ffmpeg_asset, select_ytdlp_asset, version_from_meta, BinaryManagerError, ReleaseAsset, ReleaseInfo,
    VersionCheckResult, YTDLP_EXE_NAME,
};
use featherpull::config::{bin_dir, Config};
use featherpull::json::{self, Value};
use std::io::Write;
use std::path::PathBuf;

const YTDLP_RELEASE_JSON: &str = r#"
    {
        "tag_name": "2025.08.20",
        "assets": [
            { "name": "yt-dlp", "browser_download_url": "https://example.com/yt-dlp" },
            { "name": "yt-dlp.exe", "browser_download_url": "https://example.com/yt-dlp.exe" },
            { "name": "yt-dlp.tar.gz", "browser_download_url": "https://example.com/yt-dlp.tar.gz" },
            { "name": "yt-dlp_win.zip", "browser_download_url": "https://example.com/yt-dlp_win.zip" }
        ]
    }
    "#;

const FFMPEG_RELEASE_JSON: &str = r#"
    {
        "tag_name": "latest",
        "assets": [
            { "name": "ffmpeg-master-latest-linux64-gpl.tar.xz", "browser_download_url": "https://example.com/linux.tar.xz" },
            { "name": "ffmpeg-master-latest-win64-lgpl.zip", "browser_download_url": "https://example.com/lgpl.zip" },
            { "name": "ffmpeg-master-latest-win64-gpl-shared.zip", "browser_download_url": "https://example.com/shared.zip" },
            { "name": "ffmpeg-master-latest-win64-gpl.zip", "browser_download_url": "https://example.com/gpl.zip" }
        ]
    }
    "#;

fn asset(name: &str, url: &str) -> ReleaseAsset {
    ReleaseAsset { name: name.to_string(), browser_download_url: url.to_string() }
}

fn invalid_json_message(err: BinaryManagerError) -> String {
    match err {
        BinaryManagerError::InvalidJson(m) => m,
        other => panic!("InvalidJsonのはずが{other:?}"),
    }
}

#[test]
fn parses_tag_name_and_assets_from_release_json() {
    let release = parse_release_info(YTDLP_RELEASE_JSON).expect("パースに成功するはず");
    assert_eq!(release.tag_name, "2025.08.20");
    assert_eq!(release.assets.len(), 4);
}

#[test]
fn selects_windows_exe_asset_for_ytdlp() {
    let release = parse_release_info(YTDLP_RELEASE_JSON).expect("パースに成功するはず");
    let asset = select_ytdlp_asset(&release.assets).expect("yt-dlp.exeが選ばれるはず");
    assert_eq!(asset.name, "yt-dlp.exe");
    assert_eq!(asset.browser_download_url, "https://example.com/yt-dlp.exe");
}

#[test]
fn selects_win64_gpl_zip_asset_for_ffmpeg_and_skips_shared_and_lgpl() {
    let release = parse_release_info(FFMPEG_RELEASE_JSON).expect("パースに成功するはず");
    let asset = select_ffmpeg_asset(&release.assets).expect("win64のgplビルドが選ばれるはず");
    assert_eq!(asset.name, "ffmpeg-master-latest-win64-gpl.zip");
}

#[test]
fn selects_essentials_build_when_gpl_keyword_is_absent() {
    let assets = vec![
        ReleaseAsset {
            name: "ffmpeg-n7.0-win64-essentials_build.zip".to_string(),
            browser_download_url: "https://example.com/essentials.zip".to_string(),
        },
        ReleaseAsset {
            name: "ffmpeg-n7.0-win64-full_build.zip".to_string(),
            browser_download_url: "https://example.com/full.zip".to_string(),
        },
    ];
    let asset = select_ffmpeg_asset(&assets).expect("essentialsビルドが選ばれるはず");
    assert_eq!(asset.name, "ffmpeg-n7.0-win64-essentials_build.zip");
}

#[test]
fn returns_none_when_no_ffmpeg_asset_matches() {
    let assets = vec![ReleaseAsset {
        name: "ffmpeg-master-latest-linux64-gpl.tar.xz".to_string(),
        browser_download_url: "https://example.com/linux.tar.xz".to_string(),
    }];
    assert!(select_ffmpeg_asset(&assets).is_none());
}

#[test]
fn resolve_binary_path_uses_custom_path_when_present() {
    let mut config = Config::default();
    config.binaries.ytdlp_path = "D:/tools/yt-dlp.exe".to_string();

    let resolved = resolve_ytdlp_path(&config).expect("解決に成功するはず");
    assert_eq!(resolved, PathBuf::from("D:/tools/yt-dlp.exe"));
}

#[test]
fn resolve_binary_path_uses_auto_managed_path_when_empty() {
    let config = Config::default();

    let resolved = resolve_ytdlp_path(&config).expect("解決に成功するはず");
    let expected = bin_dir().expect("bin_dirが解決できるはず").join(YTDLP_EXE_NAME);
    assert_eq!(resolved, expected);
}

#[test]
fn resolve_ffmpeg_path_respects_custom_path_too() {
    let mut config = Config::default();
    config.binaries.ffmpeg_path = "D:/tools/ffmpeg.exe".to_string();

    let resolved = resolve_ffmpeg_path(&config).expect("解決に成功するはず");
    assert_eq!(resolved, PathBuf::from("D:/tools/ffmpeg.exe"));
}

#[test]
fn check_for_update_reports_not_installed_when_no_current_version() {
    let result = check_for_update(None, "2025.08.20");
    assert_eq!(result, VersionCheckResult::NotInstalled { latest: "2025.08.20".to_string() });
}

#[test]
fn check_for_update_reports_up_to_date_when_versions_match() {
    let result = check_for_update(Some("2025.08.20"), "2025.08.20");
    assert_eq!(result, VersionCheckResult::UpToDate);
}

#[test]
fn check_for_update_reports_update_available_when_versions_differ() {
    let result = check_for_update(Some("2025.07.01"), "2025.08.20");
    assert_eq!(
        result,
        VersionCheckResult::UpdateAvailable { current: "2025.07.01".to_string(), latest: "2025.08.20".to_string() }
    );
}

#[test]
fn json_parser_handles_nested_structures_and_escaped_strings() {
    let value = json::parse(r#"{"a": [1, 2.5, "x\ny", true, false, null]}"#).expect("パースに成功するはず");
    let array = value.get("a").expect("aキーが存在するはず");
    let array = array.as_array().expect("配列であるはず");
    assert_eq!(array.len(), 6);
    assert_eq!(array[2], Value::String("x\ny".to_string()));
    assert_eq!(array[3], Value::Bool(true));
    assert_eq!(array[4], Value::Bool(false));
    assert_eq!(array[5], Value::Null);
}

// ---- further cases ----

#[test]
fn json_numbers_keep_their_text_and_get_takes_the_first_entry() {
    let value = json::parse(r#" {"n": -12.5e3, "k": 1, "k": 2} trailing"#).unwrap();
    assert_eq!(value.get("n"), Some(&Value::Number("-12.5e3".to_string())));
    assert_eq!(value.get("k"), Some(&Value::Number("1".to_string())));
    assert_eq!(value.get("missing"), None);
    assert_eq!(Value::Null.get("k"), None);
    assert_eq!(Value::String("s".to_string()).as_str(), Some("s"));
    assert_eq!(Value::Bool(true).as_str(), None);
    assert!(Value::Null.as_array().is_none());
}

#[test]
fn json_decodes_unicode_escapes() {
    let value = json::parse(r#""\u3042\u0041\/""#).unwrap();
    assert_eq!(value, Value::String("あA/".to_string()));
}

#[test]
fn json_reports_each_kind_of_error() {
    assert_eq!(json::parse(r#""abc"#), Err("文字列が閉じられていません".to_string()));
    assert_eq!(json::parse(r#""\q""#), Err("不正なエスケープシーケンスです: Some('q')".to_string()));
    assert_eq!(json::parse(r#""\u12"#), Err("\\uエスケープが不完全です".to_string()));
    assert_eq!(json::parse(r#""\u12zz""#), Err("invalid digit found in string".to_string()));
    assert_eq!(json::parse(r#""\ud800""#), Err("不正なUnicodeコードポイントです".to_string()));
    assert_eq!(json::parse("tru"), Err("真偽値のパースに失敗しました".to_string()));
    assert_eq!(json::parse("nul"), Err("nullのパースに失敗しました".to_string()));
    assert_eq!(json::parse("-"), Err("invalid float literal".to_string()));
    assert_eq!(json::parse("?"), Err("予期しないトークンです: Some('?')".to_string()));
    assert_eq!(json::parse("   "), Err("予期しないトークンです: None".to_string()));
    assert_eq!(json::parse("[1 2]"), Err("','または']'を期待しましたがSome('2')でした".to_string()));
    assert_eq!(json::parse(r#"{"a" 1}"#), Err("':'を期待しましたがSome('1')でした".to_string()));
    assert_eq!(json::parse(r#"{"a": 1"#), Err("','または'}'を期待しましたがNoneでした".to_string()));
}

#[test]
fn release_without_tag_or_assets_is_invalid_json() {
    let err = parse_release_info(r#"{"assets": []}"#).err().unwrap();
    assert_eq!(invalid_json_message(err), "tag_nameフィールドがありません");
    let err = parse_release_info(r#"{"tag_name": "v1", "assets": {}}"#).err().unwrap();
    assert_eq!(invalid_json_message(err), "assetsフィールドがありません");
    let err = parse_release_info(r#"{"tag_name": 5, "assets": []}"#).err().unwrap();
    assert_eq!(invalid_json_message(err), "tag_nameフィールドがありません");
    let err = parse_release_info("[").err().unwrap();
    assert_eq!(invalid_json_message(err), "予期しないトークンです: None");
}

#[test]
fn release_assets_without_name_or_url_are_skipped() {
    let release = parse_release_info(
        r#"{"tag_name": "t", "assets": [{"name": "a"}, 3, {"name": "b", "browser_download_url": "u"}, {"browser_download_url": "v"}]}"#,
    )
    .unwrap();
    assert_eq!(release.tag_name, "t");
    assert_eq!(release.assets, vec![asset("b", "u")]);
}

#[test]
fn ytdlp_asset_name_is_matched_exactly() {
    let assets = vec![asset("YT-DLP.EXE", "https://example.com/upper"), asset("yt-dlp.exe", "https://example.com/lower")];
    assert_eq!(select_ytdlp_asset(&assets).unwrap().browser_download_url, "https://example.com/lower");
    assert!(select_ytdlp_asset(&[asset("YT-DLP.EXE", "https://example.com/u")]).is_none());
    assert!(select_ytdlp_asset(&[asset("yt-dlp.exe.sig", "x")]).is_none());
}

#[test]
fn ffmpeg_asset_names_are_judged_word_by_word() {
    assert!(is_ffmpeg_win64_asset("ffmpeg-master-latest-win64-gpl.zip"));
    assert!(is_ffmpeg_win64_asset("FFMPEG-N7.0-WIN64-ESSENTIALS_BUILD.ZIP"));
    assert!(!is_ffmpeg_win64_asset("ffmpeg-master-latest-win64-gpl-shared.zip"));
    assert!(!is_ffmpeg_win64_asset("ffmpeg-master-latest-win64-lgpl.zip"));
    assert!(!is_ffmpeg_win64_asset("ffmpeg-master-latest-win64-gpl.tar.xz"));
    assert!(!is_ffmpeg_win64_asset("ffmpeg-win64gpl.zip"));
    assert!(!is_ffmpeg_win64_asset(".zip"));
}

#[test]
fn missing_assets_are_reported_by_name() {
    let release = ReleaseInfo { tag_name: "t".to_string(), assets: vec![asset("other", "u")] };
    match require_ytdlp_asset(&release) {
        Err(BinaryManagerError::AssetNotFound(name)) => assert_eq!(name, "yt-dlp.exe"),
        other => panic!("AssetNotFoundのはずが{other:?}"),
    }
    match require_ffmpeg_asset(&release) {
        Err(BinaryManagerError::AssetNotFound(name)) => assert_eq!(name, "win64向けのgpl/essentialsビルド"),
        other => panic!("AssetNotFoundのはずが{other:?}"),
    }
    let release = parse_release_info(FFMPEG_RELEASE_JSON).unwrap();
    assert_eq!(require_ffmpeg_asset(&release).unwrap().browser_download_url, "https://example.com/gpl.zip");
}

#[test]
fn custom_binary_path_is_taken_as_it_is() {
    let p = resolve_binary_path("C:\\bin\\yt-dlp.exe", "yt-dlp.exe").unwrap();
    assert_eq!(p, PathBuf::from("C:\\bin\\yt-dlp.exe"));
}

#[test]
fn version_file_text_is_trimmed() {
    assert_eq!(version_from_meta("  2025.08.20\r\n"), "2025.08.20");
    assert_eq!(version_from_meta(""), "");
}

#[test]
fn archive_entries_are_found_by_suffix_with_either_slash() {
    let names = vec![
        "ffmpeg-7.1/README.txt".to_string(),
        "ffmpeg-7.1\\bin\\ffprobe.exe".to_string(),
        "ffmpeg-7.1/bin/ffmpeg.exe".to_string(),
    ];
    assert_eq!(find_entry_by_suffix(&names, "bin/ffmpeg.exe"), Some(2));
    assert_eq!(find_entry_by_suffix(&names, "bin/ffprobe.exe"), Some(1));
    assert_eq!(find_entry_by_suffix(&names, "bin/ffplay.exe"), None);
}

fn zip_with(names: &[&str]) -> Vec<u8> {
    let mut buffer = std::io::Cursor::new(Vec::new());
    {
        let mut writer = zip::ZipWriter::new(&mut buffer);
        let options = zip::write::SimpleFileOptions::default().compression_method(zip::CompressionMethod::Stored);
        for name in names {
            writer.start_file(*name, options).unwrap();
            writer.write_all(b"data").unwrap();
        }
        writer.finish().unwrap();
    }
    buffer.into_inner()
}

#[test]
fn archive_entry_is_located_in_real_zip_bytes() {
    let bytes = zip_with(&["root/doc.txt", "root/bin/ffmpeg.exe", "root/bin/ffprobe.exe"]);
    assert_eq!(locate_archive_entry(&bytes, "bin/ffmpeg.exe").unwrap(), 1);
    assert_eq!(locate_archive_entry(&bytes, "bin/ffprobe.exe").unwrap(), 2);
    match locate_archive_entry(&bytes, "bin/ffplay.exe") {
        Err(BinaryManagerError::FileNotFoundInArchive(s)) => assert_eq!(s, "bin/ffplay.exe"),
        other => panic!("FileNotFoundInArchiveのはずが{other:?}"),
    }
    match locate_archive_entry(b"not a zip", "bin/ffmpeg.exe") {
        Err(BinaryManagerError::Zip(_)) => {},
        other => panic!("Zipのはずが{other:?}"),
    }
}
