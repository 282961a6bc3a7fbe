use dash_mpd::fetch::DashDownloader;
use dash_mpd::sandbox::{sandbox_paths, SandboxEnvironment};

fn strs(v: &[&str]) -> Vec<String> {
    v.iter().map(|s| s.to_string()).collect()
}

#[test]
fn sandbox_directories() {
    let env = SandboxEnvironment {
        config_home: Some("/home/u/.config".to_string()),
        data_home: None,
        tmpdir: None,
        runtime_dir: Some("/run/user/1000".to_string()),
        current_dir: "/home/u/videos".to_string(),
        path: strs(&["/usr/local/bin", "/usr/bin"]),
        ld_library_path: vec![],
    };
    let mut d = DashDownloader::new("https://example.com/m.mpd");
    d.output_path = Some("/home/u/videos/out.mp4".to_string());
    let p = sandbox_paths(&d, &env);
    assert_eq!(p.read_only, strs(&["/etc", "/dev/zero", "/proc/meminfo", "/home/u/.config"]));
    assert_eq!(p.read_write, strs(&["/var/tmp", "/tmp", "/run/user/1000", "/home/u/videos/out.mp4", "/home/u/videos"]));
    assert_eq!(p.read_exec, strs(&["/usr", "/lib", "/usr/local/bin", "/usr/bin", "ffmpeg", "vlc", "mkvmerge",
                                   "MP4Box", "mp4decrypt", "shaka-packager"]));
    let env2 = SandboxEnvironment { tmpdir: Some("/run/user/1000".to_string()), ..env };
    let p = sandbox_paths(&DashDownloader::new("https://example.com/m.mpd"), &env2);
    assert_eq!(p.read_write, strs(&["/var/tmp", "/run/user/1000", "/home/u/videos"]));
}
