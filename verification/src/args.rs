//! Command lines of the three programs.

use crate::text::{contains_char, parse_u32, same};
use vstd::prelude::*;
use vstd::string::*;

verus! {

/// The arguments behind the program's name.
pub open spec fn texts(args: Seq<String>) -> Seq<Seq<char>> {
    Seq::new(args.len(), |i: int| args[i]@)
}

/// `args` without the first `n`, or nothing if there are fewer.
pub open spec fn behind(args: Seq<Seq<char>>, n: nat) -> Seq<Seq<char>> {
    if n <= args.len() {
        args.skip(n as int)
    } else {
        Seq::empty()
    }
}

/// An option that takes a value.
#[derive(Clone, Copy, PartialEq, Eq, Structural, Debug)]
pub enum Flag {
    Bind,
    Fps,
    Bitrate,
    Pass,
    PassFile,
    Certdir,
    Key,
}

impl Flag {
    /// What the option is to be followed by.
    pub open spec fn text(self) -> Seq<char> {
        match self {
            Flag::Bind => "--bind ADDR:PORT"@,
            Flag::Fps => "--fps N"@,
            Flag::Bitrate => "--bitrate 12M"@,
            Flag::Pass => "--pass PASSWORD"@,
            Flag::PassFile => "--pass-file FILE"@,
            Flag::Certdir => "--certdir DIR"@,
            Flag::Key => "--key PASSPHRASE"@,
        }
    }

    /// The reminder of what the option is to be followed by.
    pub fn usage(self) -> (r: &'static str)
        ensures
            r@ == self.text(),
    {
        match self {
            Flag::Bind => "--bind ADDR:PORT",
            Flag::Fps => "--fps N",
            Flag::Bitrate => "--bitrate 12M",
            Flag::Pass => "--pass PASSWORD",
            Flag::PassFile => "--pass-file FILE",
            Flag::Certdir => "--certdir DIR",
            Flag::Key => "--key PASSPHRASE",
        }
    }
}

/// Why a command line is no good.
#[derive(Clone, Copy, PartialEq, Eq, Structural, Debug)]
pub enum ArgError {
    /// There is no such option.
    Usage,
    /// The option is the last argument, and its value is missing.
    Missing(Flag),
    /// The frame rate is no number.
    BadFps,
    /// It is not known who runs the program.
    NoUser,
    /// There is no passphrase.
    NoKey,
}

// ------------------------------------------------------------ looking for one

/// Where `flag` first stands in `args`; the length of `args` if nowhere.
pub open spec fn first_at(args: Seq<Seq<char>>, flag: Seq<char>) -> int
    decreases args.len(),
{
    if args.len() == 0 || args[0] == flag {
        0
    } else {
        1 + first_at(args.skip(1), flag)
    }
}

/// What follows the first `flag` in `args`.
pub open spec fn value_after(args: Seq<Seq<char>>, flag: Seq<char>) -> Option<Seq<char>> {
    let i = first_at(args, flag);
    if i + 1 < args.len() {
        Some(args[i + 1])
    } else {
        None
    }
}

proof fn lemma_first_at(args: Seq<Seq<char>>, flag: Seq<char>, i: int)
    requires
        0 <= i <= args.len(),
        forall|j: int| 0 <= j < i ==> args[j] != flag,
        i < args.len() ==> args[i] == flag,
    ensures
        first_at(args, flag) == i,
    decreases i,
{
    if i > 0 {
        assert forall|j: int| 0 <= j < i - 1 implies args.skip(1)[j] != flag by {
            assert(args.skip(1)[j] == args[j + 1]);
        }
        lemma_first_at(args.skip(1), flag, i - 1);
    }
}

fn find(args: &Vec<String>, flag: &str) -> (r: usize)
    ensures
        r == first_at(texts(args@), flag@),
        r <= args@.len(),
{
    let mut i: usize = 0;
    while i < args.len()
        invariant
            i <= args@.len(),
            forall|j: int| 0 <= j < i ==> #[trigger] args@[j]@ != flag@,
        decreases args@.len() - i,
    {
        if same(args[i].as_str(), flag) {
            proof {
                lemma_first_at(texts(args@), flag@, i as int);
            }
            return i;
        }
        i += 1;
    }
    proof {
        lemma_first_at(texts(args@), flag@, i as int);
    }
    i
}

/// The value of an optional option: what follows its first mention, wherever that
/// is.
pub fn arg_after(args: &Vec<String>, flag: &str) -> (r: Option<String>)
    ensures
        match r {
            Some(v) => value_after(texts(args@), flag@) == Some(v@),
            None => value_after(texts(args@), flag@) is None,
        },
{
    let i: usize = find(args, flag);
    if i < args.len() && i + 1 < args.len() {
        Some(args[i + 1].clone())
    } else {
        None
    }
}

/// The passphrase of a link: what follows `--key`, or else what the environment
/// holds.
pub open spec fn key_of(args: Seq<Seq<char>>, env: Option<Seq<char>>) -> Result<
    Seq<char>,
    ArgError,
> {
    if first_at(args, "--key"@) < args.len() {
        match value_after(args, "--key"@) {
            Some(v) => Ok(v),
            None => Err(ArgError::Missing(Flag::Key)),
        }
    } else {
        match env {
            Some(v) => Ok(v),
            None => Err(ArgError::NoKey),
        }
    }
}

/// Finds the passphrase.
pub fn key_from_args(args: &Vec<String>, env: Option<String>) -> (r: Result<String, ArgError>)
    ensures
        match r {
            Ok(v) => key_of(texts(args@), maybe(env)) == Ok::<Seq<char>, ArgError>(v@),
            Err(e) => key_of(texts(args@), maybe(env)) == Err::<Seq<char>, ArgError>(e),
        },
{
    let i: usize = find(args, "--key");
    if i < args.len() {
        if i + 1 < args.len() {
            Ok(args[i + 1].clone())
        } else {
            Err(ArgError::Missing(Flag::Key))
        }
    } else {
        match env {
            Some(v) => Ok(v),
            None => Err(ArgError::NoKey),
        }
    }
}

/// Whether an argument looks like the address of a server.
pub open spec fn is_address(a: Seq<char>) -> bool {
    !(a.len() >= 2 && a[0] == '-' && a[1] == '-') && a.contains(':')
}

/// Finds the server's address: the first argument that is no option and has a colon
/// in it.
pub fn find_address(args: &Vec<String>) -> (r: Option<String>)
    ensures
        match r {
            Some(v) => exists|i: int|
                {
                    &&& 0 <= i < args@.len()
                    &&& (#[trigger] args@[i])@ == v@
                    &&& is_address(v@)
                    &&& forall|j: int| 0 <= j < i ==> !is_address((#[trigger] args@[j])@)
                },
            None => forall|j: int| 0 <= j < args@.len() ==> !is_address((#[trigger] args@[j])@),
        },
{
    let mut i: usize = 0;
    while i < args.len()
        invariant
            i <= args@.len(),
            forall|j: int| 0 <= j < i ==> !is_address((#[trigger] args@[j])@),
        decreases args@.len() - i,
    {
        let a: &str = args[i].as_str();
        let n: usize = a.unicode_len();
        let option: bool = n >= 2 && a.get_char(0) == '-' && a.get_char(1) == '-';
        if !option && contains_char(a, ':') {
            return Some(args[i].clone());
        }
        i += 1;
    }
    None
}

// ------------------------------------------------------------ rdesk-server

/// Options of the server that speaks this library's own protocol.
pub struct ServerOpts {
    pub bind: String,
    pub fps: u32,
    pub bitrate: String,
    pub cpu: bool,
}

/// The options, by their contents.
pub struct ServerOptsView {
    pub bind: Seq<char>,
    pub fps: u32,
    pub bitrate: Seq<char>,
    pub cpu: bool,
}

impl View for ServerOpts {
    type V = ServerOptsView;

    open spec fn view(&self) -> ServerOptsView {
        ServerOptsView {
            bind: self.bind@,
            fps: self.fps,
            bitrate: self.bitrate@,
            cpu: self.cpu,
        }
    }
}

/// What holds without any option.
pub open spec fn server_defaults() -> ServerOptsView {
    ServerOptsView { bind: "0.0.0.0:7000"@, fps: 30, bitrate: "12M"@, cpu: false }
}

/// The options after `args`, from what held before them: one after the other, each
/// with its value; the passphrase is passed over here.
pub open spec fn server_options(o: ServerOptsView, args: Seq<Seq<char>>) -> Result<
    ServerOptsView,
    ArgError,
>
    decreases args.len(),
{
    if args.len() == 0 {
        Ok(o)
    } else if args[0] == "--cpu"@ {
        server_options(ServerOptsView { cpu: true, ..o }, behind(args, 1))
    } else if args[0] == "--key"@ {
        server_options(o, behind(args, 2))
    } else if args[0] == "--bind"@ {
        if args.len() < 2 {
            Err(ArgError::Missing(Flag::Bind))
        } else {
            server_options(ServerOptsView { bind: args[1], ..o }, behind(args, 2))
        }
    } else if args[0] == "--bitrate"@ {
        if args.len() < 2 {
            Err(ArgError::Missing(Flag::Bitrate))
        } else {
            server_options(ServerOptsView { bitrate: args[1], ..o }, behind(args, 2))
        }
    } else if args[0] == "--fps"@ {
        if args.len() < 2 {
            Err(ArgError::Missing(Flag::Fps))
        } else {
            match crate::text::number_of(args[1]) {
                Some(n) => server_options(ServerOptsView { fps: n, ..o }, behind(args, 2)),
                None => Err(ArgError::BadFps),
            }
        }
    } else {
        Err(ArgError::Usage)
    }
}

/// Reads the command line of `rdesk-server`.
pub fn parse_server_args(args: &Vec<String>) -> (r: Result<ServerOpts, ArgError>)
    ensures
        match r {
            Ok(o) => server_options(server_defaults(), texts(args@)) == Ok::<
                ServerOptsView,
                ArgError,
            >(o@),
            Err(e) => server_options(server_defaults(), texts(args@)) == Err::<
                ServerOptsView,
                ArgError,
            >(e),
        },
{
    let mut o = ServerOpts {
        bind: "0.0.0.0:7000".to_owned(),
        fps: 30,
        bitrate: "12M".to_owned(),
        cpu: false,
    };
    let n: usize = args.len();
    let mut i: usize = 0;
    proof {
        assert(texts(args@).skip(0) =~= texts(args@));
    }
    while i < n
        invariant
            n == args@.len(),
            i <= n,
            server_options(o@, texts(args@).skip(i as int)) == server_options(
                server_defaults(),
                texts(args@),
            ),
        decreases n - i,
    {
        let ghost rest = texts(args@).skip(i as int);
        proof {
            assert(rest[0] == args@[i as int]@);
            assert(behind(rest, 1) =~= texts(args@).skip(i + 1));
            if i + 1 < n {
                assert(rest[1] == args@[i + 1]@);
                assert(behind(rest, 2) =~= texts(args@).skip(i + 2));
            } else {
                assert(behind(rest, 2) =~= Seq::empty());
                assert(texts(args@).skip(n as int) =~= Seq::empty());
            }
        }
        let k: &str = args[i].as_str();
        let last: bool = i + 1 == n;
        if same(k, "--cpu") {
            o.cpu = true;
            i += 1;
        } else if same(k, "--key") {
            if last {
                i = n;
            } else {
                i += 2;
            }
        } else if same(k, "--bind") {
            if last {
                return Err(ArgError::Missing(Flag::Bind));
            }
            o.bind = args[i + 1].clone();
            i += 2;
        } else if same(k, "--bitrate") {
            if last {
                return Err(ArgError::Missing(Flag::Bitrate));
            }
            o.bitrate = args[i + 1].clone();
            i += 2;
        } else if same(k, "--fps") {
            if last {
                return Err(ArgError::Missing(Flag::Fps));
            }
            match parse_u32(args[i + 1].as_str()) {
                Some(v) => {
                    o.fps = v;
                },
                None => return Err(ArgError::BadFps),
            }
            i += 2;
        } else {
            return Err(ArgError::Usage);
        }
    }
    proof {
        assert(texts(args@).skip(n as int) =~= Seq::empty());
    }
    Ok(o)
}

// ------------------------------------------------------------ rdesk-rdp

/// Options of the RDP server.
pub struct RdpOpts {
    pub bind: String,
    pub fps: u32,
    pub bitrate: String,
    pub cpu: bool,
    /// Who logs in: the user who runs the server.
    pub user: String,
    /// A password of its own; empty for none.
    pub pass: String,
    /// A file that holds a password of its own.
    pub pass_file: Option<String>,
    /// Show smaller clients a part of the screen in its own size.
    pub viewport: bool,
    pub certdir: String,
}

/// The options, by their contents.
pub struct RdpOptsView {
    pub bind: Seq<char>,
    pub fps: u32,
    pub bitrate: Seq<char>,
    pub cpu: bool,
    pub user: Seq<char>,
    pub pass: Seq<char>,
    pub pass_file: Option<Seq<char>>,
    pub viewport: bool,
    pub certdir: Seq<char>,
}

/// A string that may be missing, by its contents.
pub open spec fn maybe(s: Option<String>) -> Option<Seq<char>> {
    match s {
        Some(v) => Some(v@),
        None => None,
    }
}

impl View for RdpOpts {
    type V = RdpOptsView;

    open spec fn view(&self) -> RdpOptsView {
        RdpOptsView {
            bind: self.bind@,
            fps: self.fps,
            bitrate: self.bitrate@,
            cpu: self.cpu,
            user: self.user@,
            pass: self.pass@,
            pass_file: maybe(self.pass_file),
            viewport: self.viewport,
            certdir: self.certdir@,
        }
    }
}

/// Where the server keeps its files.
pub open spec fn config_dir(home: Seq<char>) -> Seq<char> {
    home + "/.config/rdesk"@
}

/// What holds without any option.
pub open spec fn rdp_defaults(user: Seq<char>, home: Seq<char>) -> RdpOptsView {
    RdpOptsView {
        bind: "0.0.0.0:3390"@,
        fps: 30,
        bitrate: "12M"@,
        cpu: false,
        user,
        pass: Seq::empty(),
        pass_file: None,
        viewport: false,
        certdir: config_dir(home),
    }
}

/// The options after `args`, from what held before them: one after the other, each
/// with its value.
pub open spec fn rdp_options(o: RdpOptsView, args: Seq<Seq<char>>) -> Result<
    RdpOptsView,
    ArgError,
>
    decreases args.len(),
{
    if args.len() == 0 {
        Ok(o)
    } else if args[0] == "--cpu"@ {
        rdp_options(RdpOptsView { cpu: true, ..o }, behind(args, 1))
    } else if args[0] == "--viewport"@ {
        rdp_options(RdpOptsView { viewport: true, ..o }, behind(args, 1))
    } else if args[0] == "--bind"@ {
        if args.len() < 2 {
            Err(ArgError::Missing(Flag::Bind))
        } else {
            rdp_options(RdpOptsView { bind: args[1], ..o }, behind(args, 2))
        }
    } else if args[0] == "--bitrate"@ {
        if args.len() < 2 {
            Err(ArgError::Missing(Flag::Bitrate))
        } else {
            rdp_options(RdpOptsView { bitrate: args[1], ..o }, behind(args, 2))
        }
    } else if args[0] == "--pass"@ {
        if args.len() < 2 {
            Err(ArgError::Missing(Flag::Pass))
        } else {
            rdp_options(RdpOptsView { pass: args[1], ..o }, behind(args, 2))
        }
    } else if args[0] == "--pass-file"@ {
        if args.len() < 2 {
            Err(ArgError::Missing(Flag::PassFile))
        } else {
            rdp_options(RdpOptsView { pass_file: Some(args[1]), ..o }, behind(args, 2))
        }
    } else if args[0] == "--certdir"@ {
        if args.len() < 2 {
            Err(ArgError::Missing(Flag::Certdir))
        } else {
            rdp_options(RdpOptsView { certdir: args[1], ..o }, behind(args, 2))
        }
    } else if args[0] == "--fps"@ {
        if args.len() < 2 {
            Err(ArgError::Missing(Flag::Fps))
        } else {
            match crate::text::number_of(args[1]) {
                Some(n) => rdp_options(RdpOptsView { fps: n, ..o }, behind(args, 2)),
                None => Err(ArgError::BadFps),
            }
        }
    } else {
        Err(ArgError::Usage)
    }
}

/// The outcome of a whole command line, for a user with a home.
pub open spec fn rdp_command_line(
    args: Seq<Seq<char>>,
    user: Seq<char>,
    home: Seq<char>,
) -> Result<RdpOptsView, ArgError> {
    match rdp_options(rdp_defaults(user, home), args) {
        Ok(o) => if user.len() == 0 {
            Err(ArgError::NoUser)
        } else {
            Ok(o)
        },
        Err(e) => Err(e),
    }
}

/// Reads the command line of `rdesk-rdp`. `user` runs the program; an empty name
/// stands for one that is not known.
pub fn parse_rdp_args(args: &Vec<String>, user: &str, home: &str) -> (r: Result<RdpOpts, ArgError>)
    ensures
        match r {
            Ok(o) => rdp_command_line(texts(args@), user@, home@) == Ok::<
                RdpOptsView,
                ArgError,
            >(o@),
            Err(e) => rdp_command_line(texts(args@), user@, home@) == Err::<
                RdpOptsView,
                ArgError,
            >(e),
        },
{
    let mut o = RdpOpts {
        bind: "0.0.0.0:3390".to_owned(),
        fps: 30,
        bitrate: "12M".to_owned(),
        cpu: false,
        user: user.to_owned(),
        pass: String::new(),
        pass_file: None,
        viewport: false,
        certdir: home.to_owned().concat("/.config/rdesk"),
    };
    let n: usize = args.len();
    let mut i: usize = 0;
    proof {
        assert(texts(args@).skip(0) =~= texts(args@));
    }
    while i < n
        invariant
            n == args@.len(),
            i <= n,
            rdp_options(o@, texts(args@).skip(i as int)) == rdp_options(
                rdp_defaults(user@, home@),
                texts(args@),
            ),
        decreases n - i,
    {
        let ghost rest = texts(args@).skip(i as int);
        proof {
            assert(rest[0] == args@[i as int]@);
            assert(behind(rest, 1) =~= texts(args@).skip(i + 1));
            if i + 1 < n {
                assert(rest[1] == args@[i + 1]@);
                assert(behind(rest, 2) =~= texts(args@).skip(i + 2));
            }
        }
        let k: &str = args[i].as_str();
        let last: bool = i + 1 == n;
        if same(k, "--cpu") {
            o.cpu = true;
            i += 1;
        } else if same(k, "--viewport") {
            o.viewport = true;
            i += 1;
        } else if same(k, "--bind") {
            if last {
                return Err(ArgError::Missing(Flag::Bind));
            }
            o.bind = args[i + 1].clone();
            i += 2;
        } else if same(k, "--bitrate") {
            if last {
                return Err(ArgError::Missing(Flag::Bitrate));
            }
            o.bitrate = args[i + 1].clone();
            i += 2;
        } else if same(k, "--pass") {
            if last {
                return Err(ArgError::Missing(Flag::Pass));
            }
            o.pass = args[i + 1].clone();
            i += 2;
        } else if same(k, "--pass-file") {
            if last {
                return Err(ArgError::Missing(Flag::PassFile));
            }
            o.pass_file = Some(args[i + 1].clone());
            i += 2;
        } else if same(k, "--certdir") {
            if last {
                return Err(ArgError::Missing(Flag::Certdir));
            }
            o.certdir = args[i + 1].clone();
            i += 2;
        } else if same(k, "--fps") {
            if last {
                return Err(ArgError::Missing(Flag::Fps));
            }
            match parse_u32(args[i + 1].as_str()) {
                Some(v) => {
                    o.fps = v;
                },
                None => return Err(ArgError::BadFps),
            }
            i += 2;
        } else {
            return Err(ArgError::Usage);
        }
    }
    proof {
        assert(texts(args@).skip(n as int) =~= Seq::empty());
    }
    if user.is_empty() {
        Err(ArgError::NoUser)
    } else {
        Ok(o)
    }
}

/// Where the server's own password comes from.
pub enum Password {
    /// There is none: the user's system password counts.
    System,
    /// It was given.
    Given(String),
    /// It is in this file.
    InFile(String),
}

/// Finds where the password comes from: `--pass`, then `--pass-file`, then the
/// `password` file in the configuration directory, which counts only if nobody but
/// its owner can read it. `mode` holds the permissions of that file if it exists.
pub fn password_source(o: &RdpOpts, home: &str, mode: Option<u32>) -> (r: Password)
    ensures
        o@.pass.len() > 0 ==> (r matches Password::Given(p) && p@ == o@.pass),
        o@.pass.len() == 0 && o@.pass_file is Some ==> (r matches Password::InFile(f) && Some(f@)
            == o@.pass_file),
        o@.pass.len() == 0 && o@.pass_file is None && mode == Some(0o600u32) ==> (r matches Password::InFile(f)
            && f@ == config_dir(home@) + "/password"@),
        o@.pass.len() == 0 && o@.pass_file is None && mode != Some(0o600u32) ==> r is System,
{
    if !o.pass.as_str().is_empty() {
        return Password::Given(o.pass.clone());
    }
    match &o.pass_file {
        Some(f) => Password::InFile(f.clone()),
        None => match mode {
            Some(bits) => if bits == 0o600 {
                let dir: String = home.to_owned().concat("/.config/rdesk");
                Password::InFile(dir.concat("/password"))
            } else {
                Password::System
            },
            None => Password::System,
        },
    }
}

// ------------------------------------------------------------ laws

/// Options work one after the other: a command line that goes on continues from
/// what its first part came to, so a later option overrides an earlier one.
pub proof fn law_options_continue(o: RdpOptsView, first: Seq<Seq<char>>, more: Seq<Seq<char>>)
    requires
        rdp_options(o, first) is Ok,
    ensures
        rdp_options(o, first + more) == rdp_options(rdp_options(o, first)->Ok_0, more),
    decreases first.len(),
{
    let all = first + more;
    if first.len() == 0 {
        assert(all =~= more);
    } else {
        assert(all[0] == first[0]);
        assert(behind(all, 1) =~= behind(first, 1) + more);
        if first.len() >= 2 {
            assert(all[1] == first[1]);
            assert(behind(all, 2) =~= behind(first, 2) + more);
        }
        if first[0] == "--cpu"@ {
            law_options_continue(RdpOptsView { cpu: true, ..o }, behind(first, 1), more);
        } else if first[0] == "--viewport"@ {
            law_options_continue(RdpOptsView { viewport: true, ..o }, behind(first, 1), more);
        } else if first[0] == "--bind"@ {
            law_options_continue(RdpOptsView { bind: first[1], ..o }, behind(first, 2), more);
        } else if first[0] == "--bitrate"@ {
            law_options_continue(RdpOptsView { bitrate: first[1], ..o }, behind(first, 2), more);
        } else if first[0] == "--pass"@ {
            law_options_continue(RdpOptsView { pass: first[1], ..o }, behind(first, 2), more);
        } else if first[0] == "--pass-file"@ {
            law_options_continue(
                RdpOptsView { pass_file: Some(first[1]), ..o },
                behind(first, 2),
                more,
            );
        } else if first[0] == "--certdir"@ {
            law_options_continue(RdpOptsView { certdir: first[1], ..o }, behind(first, 2), more);
        } else {
            let n = crate::text::number_of(first[1])->0;
            law_options_continue(RdpOptsView { fps: n, ..o }, behind(first, 2), more);
        }
    }
}

/// The user is never taken from the command line.
pub proof fn law_user_is_not_an_option(o: RdpOptsView, args: Seq<Seq<char>>)
    ensures
        rdp_options(o, args) matches Ok(r) ==> r.user == o.user,
    decreases args.len(),
{
    if args.len() > 0 {
        let one = behind(args, 1);
        let two = behind(args, 2);
        if args[0] == "--cpu"@ {
            law_user_is_not_an_option(RdpOptsView { cpu: true, ..o }, one);
        } else if args[0] == "--viewport"@ {
            law_user_is_not_an_option(RdpOptsView { viewport: true, ..o }, one);
        } else if args.len() >= 2 {
            law_user_is_not_an_option(RdpOptsView { bind: args[1], ..o }, two);
            law_user_is_not_an_option(RdpOptsView { bitrate: args[1], ..o }, two);
            law_user_is_not_an_option(RdpOptsView { pass: args[1], ..o }, two);
            law_user_is_not_an_option(RdpOptsView { pass_file: Some(args[1]), ..o }, two);
            law_user_is_not_an_option(RdpOptsView { certdir: args[1], ..o }, two);
            if let Some(n) = crate::text::number_of(args[1]) {
                law_user_is_not_an_option(RdpOptsView { fps: n, ..o }, two);
            }
        }
    }
}

/// The names of options differ.
proof fn lemma_names_differ()
    ensures
        "--cpu"@ != "--viewport"@,
        "--cpu"@ != "--bind"@,
        "--viewport"@ != "--bind"@,
        "--cpu"@ != "--bitrate"@,
        "--viewport"@ != "--bitrate"@,
        "--bind"@ != "--bitrate"@,
        "--cpu"@ != "--pass"@,
        "--viewport"@ != "--pass"@,
        "--bind"@ != "--pass"@,
        "--bitrate"@ != "--pass"@,
        "--cpu"@ != "--pass-file"@,
        "--viewport"@ != "--pass-file"@,
        "--bind"@ != "--pass-file"@,
        "--bitrate"@ != "--pass-file"@,
        "--pass"@ != "--pass-file"@,
        "--cpu"@ != "--certdir"@,
        "--viewport"@ != "--certdir"@,
        "--bind"@ != "--certdir"@,
        "--bitrate"@ != "--certdir"@,
        "--pass"@ != "--certdir"@,
        "--pass-file"@ != "--certdir"@,
        "--cpu"@ != "--fps"@,
        "--viewport"@ != "--fps"@,
        "--bind"@ != "--fps"@,
        "--bitrate"@ != "--fps"@,
        "--pass"@ != "--fps"@,
        "--pass-file"@ != "--fps"@,
        "--certdir"@ != "--fps"@,
        "--cpu"@ != "--key"@,
        "--viewport"@ != "--key"@,
        "--bind"@ != "--key"@,
        "--bitrate"@ != "--key"@,
        "--pass"@ != "--key"@,
        "--pass-file"@ != "--key"@,
        "--certdir"@ != "--key"@,
        "--fps"@ != "--key"@,
{
    reveal_strlit("--cpu");
    reveal_strlit("--viewport");
    reveal_strlit("--bind");
    reveal_strlit("--bitrate");
    reveal_strlit("--pass");
    reveal_strlit("--pass-file");
    reveal_strlit("--certdir");
    reveal_strlit("--fps");
    reveal_strlit("--key");
    let s0 = "--cpu"@;
    let s1 = "--viewport"@;
    let s2 = "--bind"@;
    let s3 = "--bitrate"@;
    let s4 = "--pass"@;
    let s5 = "--pass-file"@;
    let s6 = "--certdir"@;
    let s7 = "--fps"@;
    let s8 = "--key"@;
    assert(s0.len() != s1.len());
    assert(s0.len() != s2.len());
    assert(s1.len() != s2.len());
    assert(s0.len() != s3.len());
    assert(s1.len() != s3.len());
    assert(s2.len() != s3.len());
    assert(s0.len() != s4.len());
    assert(s1.len() != s4.len());
    assert(s2[2] != s4[2]);
    assert(s3.len() != s4.len());
    assert(s0.len() != s5.len());
    assert(s1.len() != s5.len());
    assert(s2.len() != s5.len());
    assert(s3.len() != s5.len());
    assert(s4.len() != s5.len());
    assert(s0.len() != s6.len());
    assert(s1.len() != s6.len());
    assert(s2.len() != s6.len());
    assert(s3[2] != s6[2]);
    assert(s4.len() != s6.len());
    assert(s5.len() != s6.len());
    assert(s0[2] != s7[2]);
    assert(s1.len() != s7.len());
    assert(s2.len() != s7.len());
    assert(s3.len() != s7.len());
    assert(s4.len() != s7.len());
    assert(s5.len() != s7.len());
    assert(s6.len() != s7.len());
    assert(s0[2] != s8[2]);
    assert(s1.len() != s8.len());
    assert(s2.len() != s8.len());
    assert(s3.len() != s8.len());
    assert(s4.len() != s8.len());
    assert(s5.len() != s8.len());
    assert(s6.len() != s8.len());
    assert(s7[2] != s8[2]);
}

/// An option of `rdesk-rdp` sets what it is named for, to the value that follows it, and
/// leaves everything else. The frame rate has to be a number.
pub proof fn law_rdp_option_sets_what_it_names(o: RdpOptsView, v: Seq<char>)
    ensures
        rdp_options(o, Seq::empty()) == Ok::<RdpOptsView, ArgError>(o),
        rdp_options(o, seq!["--cpu"@]) == Ok::<RdpOptsView, ArgError>(RdpOptsView { cpu: true, ..o }),
        rdp_options(o, seq!["--viewport"@]) == Ok::<RdpOptsView, ArgError>(RdpOptsView { viewport: true, ..o }),
        rdp_options(o, seq!["--bind"@, v]) == Ok::<RdpOptsView, ArgError>(RdpOptsView { bind: v, ..o }),
        rdp_options(o, seq!["--bitrate"@, v]) == Ok::<RdpOptsView, ArgError>(RdpOptsView { bitrate: v, ..o }),
        rdp_options(o, seq!["--pass"@, v]) == Ok::<RdpOptsView, ArgError>(RdpOptsView { pass: v, ..o }),
        rdp_options(o, seq!["--pass-file"@, v]) == Ok::<RdpOptsView, ArgError>(RdpOptsView { pass_file: Some(v), ..o }),
        rdp_options(o, seq!["--certdir"@, v]) == Ok::<RdpOptsView, ArgError>(RdpOptsView { certdir: v, ..o }),
        crate::text::number_of(v) matches Some(n) ==> rdp_options(o, seq!["--fps"@, v]) == Ok::<RdpOptsView, ArgError>(RdpOptsView { fps: n, ..o }),
        crate::text::number_of(v) is None ==> rdp_options(o, seq!["--fps"@, v]) == Err::<RdpOptsView, ArgError>(ArgError::BadFps),
{
    lemma_names_differ();
    reveal_with_fuel(rdp_options, 2);
    assert(behind(seq!["--cpu"@], 1) =~= Seq::empty());
    assert(behind(seq!["--viewport"@], 1) =~= Seq::empty());
    assert(behind(seq!["--bind"@, v], 2) =~= Seq::empty());
    assert(behind(seq!["--bitrate"@, v], 2) =~= Seq::empty());
    assert(behind(seq!["--pass"@, v], 2) =~= Seq::empty());
    assert(behind(seq!["--pass-file"@, v], 2) =~= Seq::empty());
    assert(behind(seq!["--certdir"@, v], 2) =~= Seq::empty());
    assert(behind(seq!["--fps"@, v], 2) =~= Seq::empty());
}

/// An option of `rdesk-rdp` that is the last word has no value, and the error names it; a
/// word that is no option is told, whatever follows it.
pub proof fn law_rdp_option_needs_its_value(o: RdpOptsView, args: Seq<Seq<char>>)
    ensures
        rdp_options(o, seq!["--bind"@]) == Err::<RdpOptsView, ArgError>(ArgError::Missing(Flag::Bind)),
        rdp_options(o, seq!["--bitrate"@]) == Err::<RdpOptsView, ArgError>(ArgError::Missing(Flag::Bitrate)),
        rdp_options(o, seq!["--pass"@]) == Err::<RdpOptsView, ArgError>(ArgError::Missing(Flag::Pass)),
        rdp_options(o, seq!["--pass-file"@]) == Err::<RdpOptsView, ArgError>(ArgError::Missing(Flag::PassFile)),
        rdp_options(o, seq!["--certdir"@]) == Err::<RdpOptsView, ArgError>(ArgError::Missing(Flag::Certdir)),
        rdp_options(o, seq!["--fps"@]) == Err::<RdpOptsView, ArgError>(ArgError::Missing(Flag::Fps)),
        args.len() > 0 && args[0] != "--cpu"@ && args[0] != "--viewport"@ && args[0] != "--bind"@
            && args[0] != "--bitrate"@ && args[0] != "--pass"@ && args[0] != "--pass-file"@
            && args[0] != "--certdir"@ && args[0] != "--fps"@ ==> rdp_options(o, args) == Err::<RdpOptsView, ArgError>(ArgError::Usage),
{
    lemma_names_differ();
}

/// What holds without options: every address on port 3390, thirty frames a second, twelve
/// megabits, whatever encoder there is, no password of its own, no window where the screen
/// fits, and the user's own directory.
pub proof fn law_rdp_defaults(user: Seq<char>, home: Seq<char>)
    ensures
        rdp_command_line(Seq::empty(), user, home) == if user.len() == 0 {
            Err::<RdpOptsView, ArgError>(ArgError::NoUser)
        } else {
            Ok::<RdpOptsView, ArgError>(
                RdpOptsView {
                    bind: "0.0.0.0:3390"@,
                    fps: 30,
                    bitrate: "12M"@,
                    cpu: false,
                    user,
                    pass: Seq::empty(),
                    pass_file: None,
                    viewport: false,
                    certdir: home + "/.config/rdesk"@,
                },
            )
        },
{
}

/// A command line that is no good stays so, whatever is added, unless it only lacked the
/// value of its last option.
pub proof fn law_rdp_errors_stand(o: RdpOptsView, first: Seq<Seq<char>>, more: Seq<Seq<char>>)
    requires
        rdp_options(o, first) is Err,
        !(rdp_options(o, first)->Err_0 is Missing),
    ensures
        rdp_options(o, first + more) == rdp_options(o, first),
    decreases first.len(),
{
    let all = first + more;
    assert(all[0] == first[0]);
    assert(behind(all, 1) =~= behind(first, 1) + more);
    if first.len() >= 2 {
        assert(all[1] == first[1]);
        assert(behind(all, 2) =~= behind(first, 2) + more);
    }
    if first[0] == "--cpu"@ {
        law_rdp_errors_stand(RdpOptsView { cpu: true, ..o }, behind(first, 1), more);
    } else if first[0] == "--viewport"@ {
        law_rdp_errors_stand(RdpOptsView { viewport: true, ..o }, behind(first, 1), more);
    } else if first[0] == "--bind"@ {
        law_rdp_errors_stand(RdpOptsView { bind: first[1], ..o }, behind(first, 2), more);
    } else if first[0] == "--bitrate"@ {
        law_rdp_errors_stand(RdpOptsView { bitrate: first[1], ..o }, behind(first, 2), more);
    } else if first[0] == "--pass"@ {
        law_rdp_errors_stand(RdpOptsView { pass: first[1], ..o }, behind(first, 2), more);
    } else if first[0] == "--pass-file"@ {
        law_rdp_errors_stand(
            RdpOptsView { pass_file: Some(first[1]), ..o },
            behind(first, 2),
            more,
        );
    } else if first[0] == "--certdir"@ {
        law_rdp_errors_stand(RdpOptsView { certdir: first[1], ..o }, behind(first, 2), more);
    } else if first[0] == "--fps"@ {
        if let Some(n) = crate::text::number_of(first[1]) {
            law_rdp_errors_stand(RdpOptsView { fps: n, ..o }, behind(first, 2), more);
        }
    }
}

/// An option of `rdesk-server` sets what it is named for, to the value that follows it, and
/// leaves everything else; the passphrase is passed over, with its value or without.
pub proof fn law_server_option_sets_what_it_names(o: ServerOptsView, v: Seq<char>)
    ensures
        server_options(o, Seq::empty()) == Ok::<ServerOptsView, ArgError>(o),
        server_options(o, seq!["--cpu"@]) == Ok::<ServerOptsView, ArgError>(ServerOptsView { cpu: true, ..o }),
        server_options(o, seq!["--key"@]) == Ok::<ServerOptsView, ArgError>(o),
        server_options(o, seq!["--key"@, v]) == Ok::<ServerOptsView, ArgError>(o),
        server_options(o, seq!["--bind"@, v]) == Ok::<ServerOptsView, ArgError>(ServerOptsView { bind: v, ..o }),
        server_options(o, seq!["--bitrate"@, v]) == Ok::<ServerOptsView, ArgError>(ServerOptsView { bitrate: v, ..o }),
        crate::text::number_of(v) matches Some(n) ==> server_options(o, seq!["--fps"@, v]) == Ok::<ServerOptsView, ArgError>(ServerOptsView { fps: n, ..o }),
        crate::text::number_of(v) is None ==> server_options(o, seq!["--fps"@, v]) == Err::<ServerOptsView, ArgError>(ArgError::BadFps),
{
    lemma_names_differ();
    reveal_with_fuel(server_options, 2);
    assert(behind(seq!["--cpu"@], 1) =~= Seq::empty());
    assert(behind(seq!["--key"@], 2) =~= Seq::empty());
    assert(behind(seq!["--key"@, v], 2) =~= Seq::empty());
    assert(behind(seq!["--bind"@, v], 2) =~= Seq::empty());
    assert(behind(seq!["--bitrate"@, v], 2) =~= Seq::empty());
    assert(behind(seq!["--fps"@, v], 2) =~= Seq::empty());
}

/// An option of `rdesk-server` that is the last word has no value, and the error names it;
/// a word that is no option is told, whatever follows it.
pub proof fn law_server_option_needs_its_value(o: ServerOptsView, args: Seq<Seq<char>>)
    ensures
        server_options(o, seq!["--bind"@]) == Err::<ServerOptsView, ArgError>(ArgError::Missing(Flag::Bind)),
        server_options(o, seq!["--bitrate"@]) == Err::<ServerOptsView, ArgError>(ArgError::Missing(Flag::Bitrate)),
        server_options(o, seq!["--fps"@]) == Err::<ServerOptsView, ArgError>(ArgError::Missing(Flag::Fps)),
        args.len() > 0 && args[0] != "--cpu"@ && args[0] != "--key"@ && args[0] != "--bind"@
            && args[0] != "--bitrate"@ && args[0] != "--fps"@ ==> server_options(o, args) == Err::<ServerOptsView, ArgError>(ArgError::Usage),
{
    lemma_names_differ();
}

/// What holds without options.
pub proof fn law_server_defaults()
    ensures
        server_options(server_defaults(), Seq::empty()) == Ok::<ServerOptsView, ArgError>(
            ServerOptsView { bind: "0.0.0.0:7000"@, fps: 30, bitrate: "12M"@, cpu: false },
        ),
{
}

/// Whether every option of `rdesk-server` that takes a value has one.
pub open spec fn complete(args: Seq<Seq<char>>) -> bool
    decreases args.len(),
{
    if args.len() == 0 {
        true
    } else if args[0] == "--cpu"@ {
        complete(args.skip(1))
    } else {
        args.len() >= 2 && complete(args.skip(2))
    }
}

/// Options of `rdesk-server` work one after the other, so a later one overrides an earlier
/// one. A passphrase that is missing takes what comes next.
pub proof fn law_server_options_continue(
    o: ServerOptsView,
    first: Seq<Seq<char>>,
    more: Seq<Seq<char>>,
)
    requires
        server_options(o, first) is Ok,
        complete(first),
    ensures
        server_options(o, first + more) == server_options(server_options(o, first)->Ok_0, more),
    decreases first.len(),
{
    let all = first + more;
    if first.len() == 0 {
        assert(all =~= more);
    } else {
        assert(all[0] == first[0]);
        assert(behind(all, 1) =~= behind(first, 1) + more);
        if first.len() >= 2 {
            assert(all[1] == first[1]);
            assert(behind(all, 2) =~= behind(first, 2) + more);
        }
        if first[0] == "--cpu"@ {
            law_server_options_continue(
                ServerOptsView { cpu: true, ..o },
                behind(first, 1),
                more,
            );
        } else if first[0] == "--key"@ {
            law_server_options_continue(o, behind(first, 2), more);
        } else if first[0] == "--bind"@ {
            law_server_options_continue(
                ServerOptsView { bind: first[1], ..o },
                behind(first, 2),
                more,
            );
        } else if first[0] == "--bitrate"@ {
            law_server_options_continue(
                ServerOptsView { bitrate: first[1], ..o },
                behind(first, 2),
                more,
            );
        } else {
            let n = crate::text::number_of(first[1])->0;
            law_server_options_continue(ServerOptsView { fps: n, ..o }, behind(first, 2), more);
        }
    }
}

/// The value of an option is the word behind its first mention; without a mention, or a
/// word behind it, there is none.
pub proof fn law_value_stands_behind_the_first_mention(
    args: Seq<Seq<char>>,
    flag: Seq<char>,
    i: int,
)
    requires
        0 <= i <= args.len(),
        forall|j: int| 0 <= j < i ==> args[j] != flag,
        i < args.len() ==> args[i] == flag,
    ensures
        value_after(args, flag) == if i + 1 < args.len() {
            Some(args[i + 1])
        } else {
            None
        },
{
    lemma_first_at(args, flag, i);
}

/// The passphrase is the word behind the first `--key`, whatever the environment holds; it
/// is an error if there is none. Without `--key` the environment decides.
pub proof fn law_passphrase_is_looked_for_in_order(
    args: Seq<Seq<char>>,
    env: Option<Seq<char>>,
    i: int,
)
    requires
        0 <= i <= args.len(),
        forall|j: int| 0 <= j < i ==> args[j] != "--key"@,
        i < args.len() ==> args[i] == "--key"@,
    ensures
        key_of(args, env) == if i + 1 < args.len() {
            Ok::<Seq<char>, ArgError>(args[i + 1])
        } else if i < args.len() {
            Err::<Seq<char>, ArgError>(ArgError::Missing(Flag::Key))
        } else if env is Some {
            Ok::<Seq<char>, ArgError>(env->0)
        } else {
            Err::<Seq<char>, ArgError>(ArgError::NoKey)
        },
{
    lemma_first_at(args, "--key"@, i);
}

/// An address has a colon, and does not begin as an option does; everything else that has a
/// colon is one.
pub proof fn law_addresses_have_a_colon(a: Seq<char>)
    ensures
        is_address(a) ==> a.contains(':'),
        !is_address(seq!['-', '-'] + a),
        a.contains(':') && a[0] != '-' ==> is_address(a),
        a.contains(':') && a[0] == '-' && a[1] != '-' ==> is_address(a),
{
    let option = seq!['-', '-'] + a;
    assert(option[0] == '-' && option[1] == '-');
}

/// The reminder for an option begins with the option itself and a space.
pub proof fn law_reminders_begin_with_the_option()
    ensures
        "--bind "@.is_prefix_of(Flag::Bind.text()),
        "--fps "@.is_prefix_of(Flag::Fps.text()),
        "--bitrate "@.is_prefix_of(Flag::Bitrate.text()),
        "--pass "@.is_prefix_of(Flag::Pass.text()),
        "--pass-file "@.is_prefix_of(Flag::PassFile.text()),
        "--certdir "@.is_prefix_of(Flag::Certdir.text()),
        "--key "@.is_prefix_of(Flag::Key.text()),
{
    reveal_strlit("--bind ");
    reveal_strlit("--fps ");
    reveal_strlit("--bitrate ");
    reveal_strlit("--pass ");
    reveal_strlit("--pass-file ");
    reveal_strlit("--certdir ");
    reveal_strlit("--key ");
    reveal_strlit("--bind ADDR:PORT");
    reveal_strlit("--fps N");
    reveal_strlit("--bitrate 12M");
    reveal_strlit("--pass PASSWORD");
    reveal_strlit("--pass-file FILE");
    reveal_strlit("--certdir DIR");
    reveal_strlit("--key PASSPHRASE");
}

} // verus!
