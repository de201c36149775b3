//! A stateful shell emulator for SSH sessions. Commands that touch files read
//! and move around the fake tree; downloads, permission changes and
//! deletions always fail believably; nothing is ever executed.
use vstd::prelude::*;

use crate::command_parser::{Command, CommandParser, default_signatures, distinct_count, is_most_common, malicious_count, names_of, parsed_from};
use crate::fake_filesystem::{FakeFilesystem, FileEntry, Segments, dir_in, grow, home_path, render, root_tree, same_entry, seed_table};
use crate::text::{contains_text, decimal, decimal_string, join_spaces, join_with_spaces, pad_left, pad_left_string, strings_view, text_eq};

verus! {

/// The version banner the emulated server sends.
pub const SSH_BANNER: &'static str = "SSH-2.0-OpenSSH_8.2p1 Ubuntu-4ubuntu0.5";
/// The account every session is logged into.
pub const SHELL_USER: &'static str = "admin";
/// The emulated machine's name.
pub const SHELL_HOST: &'static str = "ubuntu-server";
/// Home directory of the account, where `cd` without argument leads.
pub const HOME_DIR: &'static str = "/home/admin";

pub const UNAME_ALL_OUTPUT: &'static str = "Linux ubuntu-server 5.4.0-42-generic #46-Ubuntu SMP Fri Jul 10 00:24:02 UTC 2020 x86_64 x86_64 x86_64 GNU/Linux\n";
pub const ID_OUTPUT: &'static str = "uid=1000(admin) gid=1000(admin) groups=1000(admin),4(adm),24(cdrom),27(sudo)\n";
pub const IFCONFIG_OUTPUT: &'static str = "eth0: flags=4163<UP,BROADCAST,RUNNING,MULTICAST>  mtu 1500\n        inet 10.0.2.15  netmask 255.255.255.0  broadcast 10.0.2.255\n        inet6 fe80::a00:27ff:fe4e:66a1  prefixlen 64  scopeid 0x20<link>\n";
pub const PS_OUTPUT: &'static str = "  PID TTY          TIME CMD\n 1234 pts/0    00:00:00 bash\n 5678 pts/0    00:00:00 ps\n";

/// Milliseconds every command is held before its output.
pub const COMMAND_DELAY_MS: u64 = 100;
/// Extra milliseconds a download attempt is held before it "times out".
pub const DOWNLOAD_DELAY_MS: u64 = 1000;
/// Extra milliseconds a recursive deletion is held before it fails.
pub const RECURSIVE_RM_DELAY_MS: u64 = 500;

/// One emulated shell session.
pub struct SshInteractionHandler {
    filesystem: FakeFilesystem,
    command_parser: CommandParser,
    session_id: String,
    username: String,
    hostname: String,
}

/// A listing in long form shows permissions, size and name per line.
pub open spec fn long_listing(args: Seq<Seq<char>>) -> bool {
    args.contains("-l"@) || args.contains("-la"@)
}

/// One line (or, in short form, one column) of `ls` output.
pub open spec fn ls_line(e: FileEntry, long: bool) -> Seq<char> {
    if long {
        e.permissions@ + " 1 admin admin "@ + pad_left(decimal(e.size as nat), 8)
            + " Dec  1 10:00 "@ + e.name@ + "\n"@
    } else {
        e.name@ + "  "@
    }
}

pub open spec fn ls_lines(es: Seq<FileEntry>, long: bool) -> Seq<char>
    decreases es.len(),
{
    if es.len() == 0 {
        Seq::empty()
    } else {
        ls_lines(es.drop_last(), long) + ls_line(es.last(), long)
    }
}

/// The output of `ls` for the entries `es` and the arguments `args`.
pub open spec fn ls_text(es: Seq<FileEntry>, args: Seq<Seq<char>>) -> Seq<char> {
    ls_lines(es, long_listing(args)) + if args.contains("-l"@) {
        Seq::<char>::empty()
    } else {
        "\n"@
    }
}

/// The output of `history`: every line so far, numbered from 1.
pub open spec fn history_text(h: Seq<Command>) -> Seq<char>
    decreases h.len(),
{
    if h.len() == 0 {
        Seq::empty()
    } else {
        history_text(h.drop_last()) + "  "@ + decimal(h.len()) + "  "@ + h.last().raw@ + "\n"@
    }
}

/// The first argument, if any.
pub open spec fn first_arg(a: Seq<Seq<char>>) -> Option<Seq<char>> {
    if a.len() > 0 {
        Some(a[0])
    } else {
        None
    }
}

/// The output of the last command of `h` in a shell of user `user` on host
/// `host`, whose filesystem was `fs` before the command.
pub open spec fn shell_reply(
    fs: FakeFilesystem,
    h: Seq<Command>,
    user: Seq<char>,
    host: Seq<char>,
) -> Seq<char> {
    let c = h.last();
    let n = c.name@;
    let a = strings_view(c.args@);
    if n == "cd"@ {
        if a.len() > 0 {
            match fs.cd_outcome(a[0]) {
                Ok(_) => Seq::empty(),
                Err(m) => m + "\n"@,
            }
        } else {
            Seq::empty()
        }
    } else if n == "ls"@ {
        match fs.list_outcome(fs.list_target(first_arg(a))) {
            Ok(es) => ls_text(es, a),
            Err(m) => m + "\n"@,
        }
    } else if n == "pwd"@ {
        render(fs.cwd()) + "\n"@
    } else if n == "cat"@ {
        if a.len() > 0 {
            match fs.read_outcome(a[0]) {
                Ok(t) => t,
                Err(m) => m + "\n"@,
            }
        } else {
            "cat: missing file operand\n"@
        }
    } else if n == "whoami"@ {
        user + "\n"@
    } else if n == "uname"@ {
        if a.contains("-a"@) {
            UNAME_ALL_OUTPUT@
        } else {
            "Linux\n"@
        }
    } else if n == "id"@ {
        ID_OUTPUT@
    } else if n == "hostname"@ {
        host + "\n"@
    } else if n == "ifconfig"@ || n == "ip"@ {
        IFCONFIG_OUTPUT@
    } else if n == "ps"@ {
        PS_OUTPUT@
    } else if n == "wget"@ || n == "curl"@ {
        n + ": Connecting to remote server...\nConnection timed out\n"@
    } else if n == "chmod"@ || n == "chown"@ {
        n + ": Operation not permitted\n"@
    } else if n == "rm"@ {
        "rm: cannot remove: Operation not permitted\n"@
    } else if n == "echo"@ {
        join_spaces(a) + "\n"@
    } else if n == "history"@ {
        history_text(h)
    } else if n == "exit"@ || n == "logout"@ {
        "logout\n"@
    } else if n.len() == 0 {
        Seq::empty()
    } else {
        n + ": command not found\n"@
    }
}

/// The working directory after the command `c` in a filesystem `fs`: only
/// `cd` moves it, to its argument or, without one, to the home directory.
pub open spec fn cwd_after(fs: FakeFilesystem, c: Command) -> Segments {
    let a = strings_view(c.args@);
    if c.name@ == "cd"@ {
        match fs.cd_outcome(if a.len() > 0 { a[0] } else { HOME_DIR@ }) {
            Ok(p) => p,
            Err(_) => fs.cwd(),
        }
    } else {
        fs.cwd()
    }
}

/// How long the output of `cmd` is held back.
pub open spec fn delay_of(cmd: Command) -> nat {
    let a = strings_view(cmd.args@);
    COMMAND_DELAY_MS as nat + if cmd.name@ == "wget"@ || cmd.name@ == "curl"@ {
        DOWNLOAD_DELAY_MS as nat
    } else if cmd.name@ == "rm"@ && (a.contains("-rf"@) || a.contains("-fr"@)) {
        RECURSIVE_RM_DELAY_MS as nat
    } else {
        0
    }
}

/// The statistics report of a session with history `h` and most frequent
/// command name `most`.
pub open spec fn stats_text(h: Seq<Command>, most: Option<Seq<char>>) -> Seq<char> {
    "Session Statistics:\nTotal Commands: "@ + decimal(h.len()) + "\nMalicious Commands: "@
        + decimal(malicious_count(h)) + "\nUnique Commands: "@ + decimal(
        distinct_count(names_of(h)),
    ) + "\nMost Common: "@ + match most {
        Some(m) => "Some(\""@ + m + "\")"@,
        None => "None"@,
    } + "\n"@
}

proof fn lemma_ls_lines_same(v: Seq<FileEntry>, es: Seq<FileEntry>, long: bool)
    requires
        v.len() == es.len(),
        forall|i: int| 0 <= i < es.len() ==> same_entry(#[trigger] v[i], es[i]),
    ensures
        ls_lines(v, long) == ls_lines(es, long),
    decreases es.len(),
{
    if es.len() > 0 {
        assert forall|i: int| 0 <= i < es.len() - 1 implies same_entry(
            #[trigger] v.drop_last()[i],
            es.drop_last()[i],
        ) by {
            assert(same_entry(v[i], es[i]));
        }
        lemma_ls_lines_same(v.drop_last(), es.drop_last(), long);
        assert(same_entry(v.last(), es.last()));
    }
}

/// How long the output of `cmd` is held back, in milliseconds.
pub fn command_delay_ms(cmd: &Command) -> (r: u64)
    ensures
        r == delay_of(*cmd),
{
    if text_eq(cmd.name.as_str(), "wget") || text_eq(cmd.name.as_str(), "curl") {
        COMMAND_DELAY_MS + DOWNLOAD_DELAY_MS
    } else if text_eq(cmd.name.as_str(), "rm") && (contains_text(&cmd.args, "-rf") || contains_text(
        &cmd.args,
        "-fr",
    )) {
        COMMAND_DELAY_MS + RECURSIVE_RM_DELAY_MS
    } else {
        COMMAND_DELAY_MS
    }
}

impl SshInteractionHandler {
    pub closed spec fn fs(&self) -> FakeFilesystem {
        self.filesystem
    }

    pub closed spec fn parser(&self) -> CommandParser {
        self.command_parser
    }

    pub closed spec fn session(&self) -> Seq<char> {
        self.session_id@
    }

    pub closed spec fn user(&self) -> Seq<char> {
        self.username@
    }

    pub closed spec fn host(&self) -> Seq<char> {
        self.hostname@
    }

    /// The filesystem is well formed.
    pub open spec fn wf(&self) -> bool {
        self.fs().wf()
    }

    pub fn new(session_id: String) -> (r: Self)
        ensures
            r.wf(),
            r.fs().tree() == grow(root_tree(), seed_table()),
            r.fs().cwd() == if dir_in(r.fs().tree(), home_path()) {
                home_path()
            } else {
                Seq::<Seq<char>>::empty()
            },
            r.session() == session_id@,
            r.user() == SHELL_USER@,
            r.host() == SHELL_HOST@,
            r.parser().signatures() == default_signatures(),
            r.parser().history_view().len() == 0,
    {
        SshInteractionHandler {
            filesystem: FakeFilesystem::new(),
            command_parser: CommandParser::new(),
            session_id,
            username: SHELL_USER.to_owned(),
            hostname: SHELL_HOST.to_owned(),
        }
    }

    /// The version banner sent before authentication.
    pub fn send_banner(&self) -> (r: String)
        ensures
            r@ == SSH_BANNER@,
    {
        SSH_BANNER.to_owned()
    }

    /// Accepts any credentials; they are intelligence, not access control.
    pub fn authenticate(&self, _username: &str, _password: &str) -> (r: bool)
        ensures
            r,
    {
        true
    }

    /// The shell prompt, such as `admin@ubuntu-server:/home/admin$ `.
    pub fn get_prompt(&self) -> (r: String)
        ensures
            r@ == self.user() + "@"@ + self.host() + ":"@ + render(self.fs().cwd()) + "$ "@,
    {
        let pwd = self.filesystem.current_dir();
        self.username.clone().concat("@").concat(self.hostname.as_str()).concat(":").concat(
            pwd.as_str(),
        ).concat("$ ")
    }

    /// Parses one input line, records it, and returns what the emulated
    /// shell prints for it.
    pub fn execute_command(&mut self, input: &str) -> (r: String)
        requires
            old(self).wf(),
        ensures
            final(self).wf(),
            final(self).parser().signatures() == old(self).parser().signatures(),
            final(self).parser().history_view().drop_last() == old(
                self,
            ).parser().history_view(),
            final(self).parser().history_view().len() == old(self).parser().history_view().len()
                + 1,
            parsed_from(
                final(self).parser().history_view().last(),
                input@,
                old(self).parser().signatures(),
            ),
            r@ == shell_reply(
                old(self).fs(),
                final(self).parser().history_view(),
                old(self).user(),
                old(self).host(),
            ),
            final(self).fs().paths() == old(self).fs().paths(),
            final(self).fs().entries() == old(self).fs().entries(),
            final(self).fs().cwd() == cwd_after(
                old(self).fs(),
                final(self).parser().history_view().last(),
            ),
            final(self).session() == old(self).session(),
            final(self).user() == old(self).user(),
            final(self).host() == old(self).host(),
    {
        let cmd = self.command_parser.parse(input);
        let ghost h = self.command_parser.history_view();
        let ghost last = h.last();
        assert(cmd.name@ == last.name@);
        assert(strings_view(cmd.args@) == strings_view(last.args@));
        assert(strings_view(cmd.args@).len() == cmd.args@.len());
        if cmd.args.len() > 0 {
            assert(strings_view(cmd.args@)[0] == cmd.args@[0]@);
        }
        let name = cmd.name.as_str();
        if text_eq(name, "cd") {
            self.handle_cd(&cmd)
        } else if text_eq(name, "ls") {
            self.handle_ls(&cmd)
        } else if text_eq(name, "pwd") {
            self.filesystem.current_dir().concat("\n")
        } else if text_eq(name, "cat") {
            self.handle_cat(&cmd)
        } else if text_eq(name, "whoami") {
            self.username.clone().concat("\n")
        } else if text_eq(name, "uname") {
            if contains_text(&cmd.args, "-a") {
                UNAME_ALL_OUTPUT.to_owned()
            } else {
                "Linux\n".to_owned()
            }
        } else if text_eq(name, "id") {
            ID_OUTPUT.to_owned()
        } else if text_eq(name, "hostname") {
            self.hostname.clone().concat("\n")
        } else if text_eq(name, "ifconfig") || text_eq(name, "ip") {
            IFCONFIG_OUTPUT.to_owned()
        } else if text_eq(name, "ps") {
            PS_OUTPUT.to_owned()
        } else if text_eq(name, "wget") || text_eq(name, "curl") {
            cmd.name.clone().concat(": Connecting to remote server...\nConnection timed out\n")
        } else if text_eq(name, "chmod") || text_eq(name, "chown") {
            cmd.name.clone().concat(": Operation not permitted\n")
        } else if text_eq(name, "rm") {
            "rm: cannot remove: Operation not permitted\n".to_owned()
        } else if text_eq(name, "echo") {
            join_with_spaces(&cmd.args).concat("\n")
        } else if text_eq(name, "history") {
            self.handle_history()
        } else if text_eq(name, "exit") || text_eq(name, "logout") {
            "logout\n".to_owned()
        } else if cmd.name.unicode_len() == 0 {
            String::new()
        } else {
            cmd.name.clone().concat(": command not found\n")
        }
    }

    fn handle_ls(&self, cmd: &Command) -> (r: String)
        requires
            self.wf(),
        ensures
            r@ == match self.fs().list_outcome(
                self.fs().list_target(first_arg(strings_view(cmd.args@))),
            ) {
                Ok(es) => ls_text(es, strings_view(cmd.args@)),
                Err(m) => m + "\n"@,
            },
    {
        let ghost a = strings_view(cmd.args@);
        let path: Option<&str> = if cmd.args.len() > 0 {
            Some(cmd.args[0].as_str())
        } else {
            None
        };
        assert(first_arg(a) == match path {
            Some(p) => Some(p@),
            None => None::<Seq<char>>,
        });
        match self.filesystem.list_dir(path) {
            Ok(entries) => {
                let long = contains_text(&cmd.args, "-l") || contains_text(&cmd.args, "-la");
                let mut output = String::new();
                let mut i: usize = 0;
                assert(entries@.subrange(0, 0) =~= Seq::<FileEntry>::empty());
                while i < entries.len()
                    invariant
                        i <= entries.len(),
                        long == long_listing(a),
                        output@ == ls_lines(entries@.subrange(0, i as int), long),
                    decreases entries.len() - i,
                {
                    let e = &entries[i];
                    assert(entries@.subrange(0, i + 1).drop_last() =~= entries@.subrange(
                        0,
                        i as int,
                    ));
                    if long {
                        let size = pad_left_string(decimal_string(e.size).as_str(), 8);
                        output = output.concat(e.permissions.as_str()).concat(
                            " 1 admin admin ",
                        ).concat(size.as_str()).concat(" Dec  1 10:00 ").concat(
                            e.name.as_str(),
                        ).concat("\n");
                    } else {
                        output = output.concat(e.name.as_str()).concat("  ");
                    }
                    i = i + 1;
                }
                assert(entries@.subrange(0, i as int) =~= entries@);
                proof {
                    match self.fs().list_outcome(self.fs().list_target(first_arg(a))) {
                        Ok(es) => {
                            lemma_ls_lines_same(entries@, es, long);
                        },
                        Err(_) => {},
                    }
                }
                if !contains_text(&cmd.args, "-l") {
                    output = output.concat("\n");
                }
                output
            },
            Err(e) => e.concat("\n"),
        }
    }

    fn handle_cd(&mut self, cmd: &Command) -> (r: String)
        requires
            old(self).wf(),
        ensures
            final(self).wf(),
            r@ == if cmd.args@.len() > 0 {
                match old(self).fs().cd_outcome(cmd.args@[0]@) {
                    Ok(_) => Seq::<char>::empty(),
                    Err(m) => m + "\n"@,
                }
            } else {
                Seq::<char>::empty()
            },
            final(self).fs().paths() == old(self).fs().paths(),
            final(self).fs().entries() == old(self).fs().entries(),
            final(self).fs().cwd() == match old(self).fs().cd_outcome(
                if cmd.args@.len() > 0 {
                    cmd.args@[0]@
                } else {
                    HOME_DIR@
                },
            ) {
                Ok(p) => p,
                Err(_) => old(self).fs().cwd(),
            },
            final(self).parser() == old(self).parser(),
            final(self).session() == old(self).session(),
            final(self).user() == old(self).user(),
            final(self).host() == old(self).host(),
    {
        if cmd.args.len() > 0 {
            match self.filesystem.change_dir(cmd.args[0].as_str()) {
                Ok(_) => String::new(),
                Err(e) => e.concat("\n"),
            }
        } else {
            let _ = self.filesystem.change_dir(HOME_DIR);
            String::new()
        }
    }

    fn handle_cat(&self, cmd: &Command) -> (r: String)
        requires
            self.wf(),
        ensures
            r@ == if cmd.args@.len() > 0 {
                match self.fs().read_outcome(cmd.args@[0]@) {
                    Ok(t) => t,
                    Err(m) => m + "\n"@,
                }
            } else {
                "cat: missing file operand\n"@
            },
    {
        if cmd.args.len() > 0 {
            match self.filesystem.read_file(cmd.args[0].as_str()) {
                Ok(content) => content,
                Err(e) => e.concat("\n"),
            }
        } else {
            "cat: missing file operand\n".to_owned()
        }
    }

    fn handle_history(&self) -> (r: String)
        ensures
            r@ == history_text(self.parser().history_view()),
    {
        let h = self.command_parser.history();
        let ghost hv = self.parser().history_view();
        let mut output = String::new();
        let mut i: usize = 0;
        assert(hv.subrange(0, 0) =~= Seq::<Command>::empty());
        while i < h.len()
            invariant
                i <= h.len(),
                h@ == hv,
                output@ == history_text(hv.subrange(0, i as int)),
            decreases h.len() - i,
        {
            assert(hv.subrange(0, i + 1).drop_last() =~= hv.subrange(0, i as int));
            let number = decimal_string(i as u64 + 1);
            output = output.concat("  ").concat(number.as_str()).concat("  ").concat(
                h[i].raw.as_str(),
            ).concat("\n");
            i = i + 1;
        }
        assert(hv.subrange(0, i as int) =~= hv);
        output
    }

    /// A report of the session's command statistics; the most frequent
    /// name is shown between quotes.
    pub fn get_stats(&self) -> (r: String)
        ensures
            exists|most: Option<Seq<char>>|
                {
                    &&& (most is None <==> self.parser().history_view().len() == 0)
                    &&& (most matches Some(m) ==> is_most_common(
                        names_of(self.parser().history_view()),
                        m,
                    ))
                    &&& r@ == stats_text(self.parser().history_view(), most)
                },
    {
        let stats = self.command_parser.get_stats();
        let most = match &stats.most_common {
            Some(m) => "Some(\"".to_owned().concat(m.as_str()).concat("\")"),
            None => "None".to_owned(),
        };
        let r = "Session Statistics:\nTotal Commands: ".to_owned().concat(
            decimal_string(stats.total_commands as u64).as_str(),
        ).concat("\nMalicious Commands: ").concat(
            decimal_string(stats.malicious_commands as u64).as_str(),
        ).concat("\nUnique Commands: ").concat(
            decimal_string(stats.unique_commands as u64).as_str(),
        ).concat("\nMost Common: ").concat(most.as_str()).concat("\n");
        let ghost m = match stats.most_common {
            Some(x) => Some(x@),
            None => None::<Seq<char>>,
        };
        assert(r@ == stats_text(self.parser().history_view(), m));
        r
    }

    /// Every command of the session so far, oldest first.
    pub fn history(&self) -> (r: &[Command])
        ensures
            r@ == self.parser().history_view(),
    {
        self.command_parser.history()
    }

    /// The account name the shell runs as.
    pub fn username(&self) -> (r: &str)
        ensures
            r@ == self.user(),
    {
        self.username.as_str()
    }

    /// The identifier of the session this handler serves.
    pub fn session_id(&self) -> (r: &str)
        ensures
            r@ == self.session(),
    {
        self.session_id.as_str()
    }
}

} // verus!
