use rdesk::args::{
    arg_after, find_address, key_from_args, parse_rdp_args, parse_server_args, password_source,
    ArgError, Flag, Password,
};

fn v(args: &[&str]) -> Vec<String> {
    args.iter().map(|a| a.to_string()).collect()
}

#[test]
fn value_follows_its_flag() {
    let a = v(&["host:1", "--hwaccel", "vaapi", "--hwaccel", "cuda"]);
    assert_eq!(arg_after(&a, "--hwaccel"), Some("vaapi".to_string()));
    assert_eq!(arg_after(&a, "--none"), None);
    assert_eq!(arg_after(&v(&["--hwaccel"]), "--hwaccel"), None);
}

#[test]
fn key_comes_from_the_flag_or_the_environment() {
    let env = Some("env".to_string());
    assert_eq!(key_from_args(&v(&["--key", "k"]), env.clone()), Ok("k".to_string()));
    assert_eq!(key_from_args(&v(&["x"]), env.clone()), Ok("env".to_string()));
    assert_eq!(key_from_args(&v(&["--key"]), env), Err(ArgError::Missing(Flag::Key)));
    assert_eq!(key_from_args(&v(&[]), None), Err(ArgError::NoKey));
    assert_eq!(Flag::Key.usage(), "--key PASSPHRASE");
}

#[test]
fn address_is_the_first_argument_with_a_colon() {
    assert_eq!(
        find_address(&v(&["--a:b", "plain", "host:7000", "other:1"])),
        Some("host:7000".to_string())
    );
    assert_eq!(find_address(&v(&["plain", "--x:y"])), None);
}

#[test]
fn server_options_have_defaults() {
    match parse_server_args(&v(&[])) {
        Ok(o) => {
            assert_eq!(o.bind, "0.0.0.0:7000");
            assert_eq!(o.fps, 30);
            assert_eq!(o.bitrate, "12M");
            assert!(!o.cpu);
        }
        Err(_) => panic!("no option is needed"),
    }
}

#[test]
fn server_options_are_read() {
    let a = v(&["--bind", "1.2.3.4:5", "--fps", "60", "--bitrate", "3M", "--cpu", "--key", "k"]);
    match parse_server_args(&a) {
        Ok(o) => {
            assert_eq!(o.bind, "1.2.3.4:5");
            assert_eq!(o.fps, 60);
            assert_eq!(o.bitrate, "3M");
            assert!(o.cpu);
        }
        Err(_) => panic!("these are good"),
    }
    assert!(parse_server_args(&v(&["--key"])).is_ok());
}

#[test]
fn server_options_that_are_wrong_are_told() {
    assert_eq!(parse_server_args(&v(&["--what"])).err(), Some(ArgError::Usage));
    assert_eq!(parse_server_args(&v(&["--pass", "x"])).err(), Some(ArgError::Usage));
    assert_eq!(parse_server_args(&v(&["--bind"])).err(), Some(ArgError::Missing(Flag::Bind)));
    assert_eq!(parse_server_args(&v(&["--fps"])).err(), Some(ArgError::Missing(Flag::Fps)));
    assert_eq!(parse_server_args(&v(&["--fps", "x"])).err(), Some(ArgError::BadFps));
    assert_eq!(
        parse_server_args(&v(&["--bitrate"])).err(),
        Some(ArgError::Missing(Flag::Bitrate))
    );
    assert_eq!(Flag::Bind.usage(), "--bind ADDR:PORT");
}

#[test]
fn rdp_options_have_defaults() {
    match parse_rdp_args(&v(&[]), "ann", "/home/ann") {
        Ok(o) => {
            assert_eq!(o.bind, "0.0.0.0:3390");
            assert_eq!(o.fps, 30);
            assert_eq!(o.bitrate, "12M");
            assert_eq!(o.user, "ann");
            assert_eq!(o.pass, "");
            assert_eq!(o.pass_file, None);
            assert_eq!(o.certdir, "/home/ann/.config/rdesk");
            assert!(!o.cpu && !o.viewport);
        }
        Err(_) => panic!("no option is needed"),
    }
}

#[test]
fn later_rdp_options_override_earlier_ones() {
    let a = v(&[
        "--fps", "10", "--pass", "p", "--pass-file", "/f", "--viewport", "--cpu", "--certdir",
        "/c", "--bind", "[::]:1", "--bitrate", "1M", "--fps", "20",
    ]);
    match parse_rdp_args(&a, "ann", "/home/ann") {
        Ok(o) => {
            assert_eq!(o.fps, 20);
            assert_eq!(o.pass, "p");
            assert_eq!(o.pass_file, Some("/f".to_string()));
            assert_eq!(o.certdir, "/c");
            assert_eq!(o.bind, "[::]:1");
            assert_eq!(o.bitrate, "1M");
            assert!(o.cpu && o.viewport);
        }
        Err(_) => panic!("these are good"),
    }
}

#[test]
fn rdp_options_that_are_wrong_are_told() {
    let bad = |a: &[&str]| parse_rdp_args(&v(a), "ann", "/home/ann").err();
    assert_eq!(bad(&["--key", "k"]), Some(ArgError::Usage));
    assert_eq!(bad(&["--pass"]), Some(ArgError::Missing(Flag::Pass)));
    assert_eq!(bad(&["--pass-file"]), Some(ArgError::Missing(Flag::PassFile)));
    assert_eq!(bad(&["--certdir"]), Some(ArgError::Missing(Flag::Certdir)));
    assert_eq!(bad(&["--fps", "-1"]), Some(ArgError::BadFps));
    assert_eq!(parse_rdp_args(&v(&[]), "", "/home/ann").err(), Some(ArgError::NoUser));
}

#[test]
fn password_comes_from_the_nearest_place() {
    let source = |a: &[&str], mode: Option<u32>| match parse_rdp_args(&v(a), "ann", "/home/ann") {
        Ok(o) => password_source(&o, "/home/ann", mode),
        Err(_) => panic!("these are good"),
    };
    assert!(matches!(source(&["--pass", "p", "--pass-file", "/f"], Some(0o600)),
        Password::Given(p) if p == "p"));
    assert!(matches!(source(&["--pass-file", "/f"], Some(0o600)),
        Password::InFile(f) if f == "/f"));
    assert!(matches!(source(&[], Some(0o600)),
        Password::InFile(f) if f == "/home/ann/.config/rdesk/password"));
    assert!(matches!(source(&[], Some(0o644)), Password::System));
    assert!(matches!(source(&[], None), Password::System));
}
