use circuitchat::files::{file_base_name, format_size, sanitize_filename, unique_name, CHUNK_SIZE};

const FORBIDDEN: [char; 9] = ['/', '\\', ':', '*', '?', '"', '<', '>', '|'];

#[test]
fn sanitize_keeps_base_name() {
    assert_eq!(sanitize_filename("a/b/c.txt"), "c.txt");
    assert_eq!(sanitize_filename("/etc/passwd"), "passwd");
    assert_eq!(sanitize_filename("dir/"), "dir");
    assert_eq!(sanitize_filename("plain.txt"), "plain.txt");
}

#[test]
fn sanitize_skips_empty_and_current_components() {
    assert_eq!(sanitize_filename("./a"), "a");
    assert_eq!(sanitize_filename("a/./b"), "b");
    assert_eq!(sanitize_filename("a//b//"), "b");
    assert_eq!(sanitize_filename("b/."), "b");
    assert_eq!(sanitize_filename("."), "unnamed");
    assert_eq!(sanitize_filename("./"), "unnamed");
    assert_eq!(sanitize_filename("..a"), "..a");
    assert_eq!(sanitize_filename("x/.../y"), "y");
    assert_eq!(sanitize_filename("..."), "...");
}

#[test]
fn sanitize_replaces_forbidden_characters() {
    assert_eq!(sanitize_filename("x:y*z?.txt"), "x_y_z_.txt");
    assert_eq!(sanitize_filename("<>|\"\\"), "_____");
    assert_eq!(sanitize_filename("a\\b"), "a_b");
    for name in ["a:b", "../../x?y", "we\"ird<>|", "c:\\windows\\x.exe"] {
        let s = sanitize_filename(name);
        assert!(!s.chars().any(|c| FORBIDDEN.contains(&c)), "{}", s);
    }
}

#[test]
fn sanitize_falls_back_to_unnamed() {
    assert_eq!(sanitize_filename(""), "unnamed");
    assert_eq!(sanitize_filename(".."), "unnamed");
    assert_eq!(sanitize_filename("a/.."), "unnamed");
    assert_eq!(sanitize_filename("/"), "unnamed");
}

fn names(v: &[&str]) -> Vec<String> {
    v.iter().map(|s| s.to_string()).collect()
}

#[test]
fn unique_name_uses_name_when_free() {
    assert_eq!(unique_name("x.txt", &names(&[])), "x.txt");
    assert_eq!(unique_name("x.txt", &names(&["y.txt"])), "x.txt");
}

#[test]
fn unique_name_counts_up() {
    assert_eq!(unique_name("x.txt", &names(&["x.txt"])), "x (1).txt");
    assert_eq!(unique_name("x.txt", &names(&["x (1).txt", "x.txt"])), "x (2).txt");
    let mut taken = names(&["x.txt"]);
    for i in 1..10 {
        taken.push(format!("x ({}).txt", i));
    }
    assert_eq!(unique_name("x.txt", &taken), "x (10).txt");
}

#[test]
fn unique_name_splits_stem_and_extension() {
    assert_eq!(unique_name("archive.tar.gz", &names(&["archive.tar.gz"])), "archive.tar (1).gz");
    assert_eq!(unique_name(".bashrc", &names(&[".bashrc"])), ".bashrc (1)");
    assert_eq!(unique_name("noext", &names(&["noext"])), "noext (1)");
    assert_eq!(unique_name("trail.", &names(&["trail."])), "trail (1).");
}

#[test]
fn unique_name_is_never_taken() {
    let taken = names(&["a.b", "a (1).b", "a (3).b", "a (2).b"]);
    let r = unique_name("a.b", &taken);
    assert!(!taken.contains(&r));
    assert_eq!(r, "a (4).b");
}

#[test]
fn size_in_bytes() {
    assert_eq!(format_size(0), "0 B");
    assert_eq!(format_size(1), "1 B");
    assert_eq!(format_size(1023), "1023 B");
}

#[test]
fn size_in_kilobytes() {
    assert_eq!(format_size(1024), "1.0 KB");
    assert_eq!(format_size(1536), "1.5 KB");
    assert_eq!(format_size(100000), "97.7 KB");
    assert_eq!(format_size(1280), "1.2 KB");
    assert_eq!(format_size(1792), "1.8 KB");
    assert_eq!(format_size(1048575), "1024.0 KB");
}

#[test]
fn size_in_megabytes_and_gigabytes() {
    assert_eq!(format_size(1048576), "1.0 MB");
    assert_eq!(format_size(5 * 1048576 + 524288), "5.5 MB");
    assert_eq!(format_size(1073741824), "1.00 GB");
    assert_eq!(format_size(1610612736), "1.50 GB");
    assert_eq!(format_size(u64::MAX), "17179869184.00 GB");
}

#[test]
fn chunk_size_leaves_room_in_a_frame() {
    assert_eq!(CHUNK_SIZE, 60000);
    assert!(CHUNK_SIZE + 2 + 16 <= 65535);
}

#[test]
fn base_names_of_paths() {
    assert_eq!(file_base_name("/home/u/report.pdf"), Some("report.pdf".to_string()));
    assert_eq!(file_base_name("notes"), Some("notes".to_string()));
    assert_eq!(file_base_name("dir/sub/"), Some("sub".to_string()));
    assert_eq!(file_base_name("a/.."), None);
    assert_eq!(file_base_name(""), None);
    assert_eq!(file_base_name("/"), None);
}
