//! Shell line parsing, malicious-pattern flagging and command history.
use vstd::prelude::*;

use crate::text::{chars_of, contains_chars, contains_seq, copy_strings, split_words, strings_view, trim_seq, trim_string, words};

verus! {

/// One parsed shell line.
#[derive(Debug, Clone)]
pub struct Command {
    pub name: String,
    pub args: Vec<String>,
    pub raw: String,
    pub is_malicious: bool,
}

/// Aggregate figures over a parser's history.
#[derive(Debug, Clone)]
pub struct CommandStats {
    pub total_commands: usize,
    pub malicious_commands: usize,
    pub unique_commands: usize,
    pub most_common: Option<String>,
}

/// Tokenizes shell lines, flags those matching a signature and keeps every
/// parsed command in arrival order.
pub struct CommandParser {
    malicious_patterns: Vec<String>,
    command_history: Vec<Command>,
}

/// The signature set a parser starts with: destructive deletion, downloads,
/// reverse shells, dropped payloads, privilege and account changes.
pub open spec fn default_signatures() -> Seq<Seq<char>> {
    seq![
        "rm -rf"@,
        "wget"@,
        "curl"@,
        "nc -"@,
        "bash -i"@,
        "/bin/sh"@,
        "chmod +x"@,
        "base64 -d"@,
        "python -c"@,
        "perl -e"@,
        "sudo"@,
        "passwd"@,
        "useradd"@,
        "iptables"@,
    ]
}

/// Some signature of `sigs` occurs in `line`.
pub open spec fn is_flagged(line: Seq<char>, sigs: Seq<Seq<char>>) -> bool {
    exists|k: int| 0 <= k < sigs.len() && #[trigger] contains_seq(line, sigs[k])
}

/// `cmd` is what parsing `input` yields under the signature set `sigs`: the
/// first word is the name, the other words the arguments, the trimmed line
/// the raw text.
pub open spec fn parsed_from(cmd: Command, input: Seq<char>, sigs: Seq<Seq<char>>) -> bool {
    let ws = words(input);
    &&& cmd.raw@ == trim_seq(input)
    &&& cmd.is_malicious == is_flagged(trim_seq(input), sigs)
    &&& ws.len() == 0 ==> cmd.name@ == Seq::<char>::empty() && cmd.args@.len() == 0
    &&& ws.len() > 0 ==> cmd.name@ == ws[0] && strings_view(cmd.args@) == ws.drop_first()
}

/// The command names of a history.
pub open spec fn names_of(h: Seq<Command>) -> Seq<Seq<char>> {
    h.map_values(|c: Command| c.name@)
}

/// How many commands of `h` were flagged.
pub open spec fn malicious_count(h: Seq<Command>) -> nat
    decreases h.len(),
{
    if h.len() == 0 {
        0
    } else {
        malicious_count(h.drop_last()) + if h.last().is_malicious {
            1nat
        } else {
            0nat
        }
    }
}

/// How often `n` occurs in `s`.
pub open spec fn count_of(s: Seq<Seq<char>>, n: Seq<char>) -> nat
    decreases s.len(),
{
    if s.len() == 0 {
        0
    } else {
        count_of(s.drop_last(), n) + if s.last() == n {
            1nat
        } else {
            0nat
        }
    }
}

/// How many different values `s` holds.
pub open spec fn distinct_count(s: Seq<Seq<char>>) -> nat
    decreases s.len(),
{
    if s.len() == 0 {
        0
    } else {
        distinct_count(s.drop_last()) + if s.drop_last().contains(s.last()) {
            0nat
        } else {
            1nat
        }
    }
}

/// `m` is a most frequent value of `s`.
pub open spec fn is_most_common(s: Seq<Seq<char>>, m: Seq<char>) -> bool {
    &&& s.contains(m)
    &&& forall|i: int| 0 <= i < s.len() ==> count_of(s, #[trigger] s[i]) <= count_of(s, m)
}

impl CommandParser {
    /// The signatures this parser flags.
    pub closed spec fn signatures(&self) -> Seq<Seq<char>> {
        strings_view(self.malicious_patterns@)
    }

    /// Every command parsed so far, oldest first.
    pub closed spec fn history_view(&self) -> Seq<Command> {
        self.command_history@
    }

    /// A parser with the default signatures and no history.
    pub fn new() -> (r: Self)
        ensures
            r.signatures() == default_signatures(),
            r.history_view().len() == 0,
    {
        let patterns = vec![
            "rm -rf".to_owned(),
            "wget".to_owned(),
            "curl".to_owned(),
            "nc -".to_owned(),
            "bash -i".to_owned(),
            "/bin/sh".to_owned(),
            "chmod +x".to_owned(),
            "base64 -d".to_owned(),
            "python -c".to_owned(),
            "perl -e".to_owned(),
            "sudo".to_owned(),
            "passwd".to_owned(),
            "useradd".to_owned(),
            "iptables".to_owned(),
        ];
        let r = CommandParser { malicious_patterns: patterns, command_history: Vec::new() };
        assert(r.signatures() =~= default_signatures());
        r
    }

    /// A parser with a signature set of the caller's choosing.
    pub fn with_signatures(patterns: Vec<String>) -> (r: Self)
        ensures
            r.signatures() == strings_view(patterns@),
            r.history_view().len() == 0,
    {
        CommandParser { malicious_patterns: patterns, command_history: Vec::new() }
    }

    /// Parses one input line and appends the result to the history.
    pub fn parse(&mut self, input: &str) -> (cmd: Command)
        ensures
            parsed_from(cmd, input@, old(self).signatures()),
            final(self).signatures() == old(self).signatures(),
            final(self).history_view().len() == old(self).history_view().len() + 1,
            final(self).history_view().drop_last() == old(self).history_view(),
            parsed_from(final(self).history_view().last(), input@, old(self).signatures()),
    {
        let trimmed = trim_string(input);
        let parts = split_words(input);
        let mut name = String::new();
        let mut args: Vec<String> = Vec::new();
        let mut i: usize = 1;
        if parts.len() > 0 {
            name = parts[0].clone();
            while i < parts.len()
                invariant
                    1 <= i <= parts.len(),
                    strings_view(args@) == strings_view(parts@).subrange(1, i as int),
                decreases parts.len() - i,
            {
                let ghost prev = args@;
                args.push(parts[i].clone());
                assert(strings_view(args@) =~= strings_view(prev).push(parts@[i as int]@));
                i = i + 1;
                assert(strings_view(args@) =~= strings_view(parts@).subrange(1, i as int));
            }
            assert(strings_view(parts@).subrange(1, i as int) =~= strings_view(
                parts@,
            ).drop_first());
        }
        let is_malicious = self.is_malicious_command(trimmed.as_str());
        let cmd = Command { name, args, raw: trimmed, is_malicious };
        let stored = Command {
            name: cmd.name.clone(),
            args: copy_strings(&cmd.args),
            raw: cmd.raw.clone(),
            is_malicious,
        };
        assert(stored.args@.len() == strings_view(stored.args@).len());
        assert(cmd.args@.len() == strings_view(cmd.args@).len());
        assert(parsed_from(stored, input@, old(self).signatures()));
        self.command_history.push(stored);
        assert(self.command_history@.drop_last() =~= old(self).command_history@);
        cmd
    }

    /// Whether some signature occurs in `cmd`.
    fn is_malicious_command(&self, cmd: &str) -> (r: bool)
        ensures
            r == is_flagged(cmd@, self.signatures()),
    {
        let text = chars_of(cmd);
        let mut k: usize = 0;
        while k < self.malicious_patterns.len()
            invariant
                k <= self.malicious_patterns.len(),
                text@ == cmd@,
                forall|j: int| 0 <= j < k ==> !contains_seq(cmd@, #[trigger] self.signatures()[j]),
            decreases self.malicious_patterns.len() - k,
        {
            let pat = chars_of(self.malicious_patterns[k].as_str());
            if contains_chars(&text, &pat) {
                assert(contains_seq(cmd@, self.signatures()[k as int]));
                return true;
            }
            k = k + 1;
        }
        false
    }

    /// Counts of the history: total, flagged, distinct names, and a most
    /// frequent name (the earliest one among equally frequent names).
    pub fn get_stats(&self) -> (r: CommandStats)
        ensures
            r.total_commands == self.history_view().len(),
            r.malicious_commands == malicious_count(self.history_view()),
            r.unique_commands == distinct_count(names_of(self.history_view())),
            r.most_common is None <==> self.history_view().len() == 0,
            r.most_common matches Some(m) ==> is_most_common(
                names_of(self.history_view()),
                m@,
            ),
    {
        let total = self.command_history.len();
        let malicious = self.count_malicious();
        let unique = self.count_unique();
        CommandStats {
            total_commands: total,
            malicious_commands: malicious,
            unique_commands: unique,
            most_common: self.get_most_common_command(),
        }
    }

    fn count_malicious(&self) -> (r: usize)
        ensures
            r == malicious_count(self.history_view()),
    {
        let h = &self.command_history;
        let mut n: usize = 0;
        let mut i: usize = 0;
        while i < h.len()
            invariant
                i <= h.len(),
                n <= i,
                n == malicious_count(h@.subrange(0, i as int)),
            decreases h.len() - i,
        {
            assert(h@.subrange(0, i + 1).drop_last() =~= h@.subrange(0, i as int));
            if h[i].is_malicious {
                n = n + 1;
            }
            i = i + 1;
        }
        assert(h@.subrange(0, i as int) =~= h@);
        n
    }

    /// How often the name `n` occurs in the history.
    fn count_name(&self, n: &String) -> (r: usize)
        ensures
            r == count_of(names_of(self.history_view()), n@),
    {
        let h = &self.command_history;
        let ghost names = names_of(h@);
        let mut c: usize = 0;
        let mut i: usize = 0;
        while i < h.len()
            invariant
                i <= h.len(),
                names == names_of(h@),
                c <= i,
                c == count_of(names.subrange(0, i as int), n@),
            decreases h.len() - i,
        {
            assert(names.subrange(0, i + 1).drop_last() =~= names.subrange(0, i as int));
            if h[i].name == *n {
                c = c + 1;
            }
            i = i + 1;
        }
        assert(names.subrange(0, i as int) =~= names);
        c
    }

    fn count_unique(&self) -> (r: usize)
        ensures
            r == distinct_count(names_of(self.history_view())),
    {
        let h = &self.command_history;
        let ghost names = names_of(h@);
        let mut u: usize = 0;
        let mut i: usize = 0;
        while i < h.len()
            invariant
                i <= h.len(),
                names == names_of(h@),
                u <= i,
                u == distinct_count(names.subrange(0, i as int)),
            decreases h.len() - i,
        {
            let ghost prefix = names.subrange(0, i as int);
            assert(names.subrange(0, i + 1).drop_last() =~= prefix);
            let mut seen = false;
            let mut j: usize = 0;
            while j < i
                invariant
                    i < h.len(),
                    j <= i,
                    names == names_of(h@),
                    prefix == names.subrange(0, i as int),
                    seen == exists|k: int| 0 <= k < j && prefix[k] == names[i as int],
                decreases i - j,
            {
                assert(prefix[j as int] == h@[j as int].name@);
                assert(names[i as int] == h@[i as int].name@);
                if h[j].name == h[i].name {
                    seen = true;
                }
                j = j + 1;
            }
            if !seen {
                u = u + 1;
            }
            proof {
                if seen {
                    let k = choose|k: int| 0 <= k < i && prefix[k] == names[i as int];
                    assert(prefix.contains(names[i as int]));
                }
                assert(names.subrange(0, i + 1).last() == names[i as int]);
            }
            i = i + 1;
        }
        assert(names.subrange(0, i as int) =~= names);
        u
    }

    /// A most frequent command name, the earliest among ties; `None` when
    /// nothing was parsed.
    fn get_most_common_command(&self) -> (r: Option<String>)
        ensures
            r is None <==> self.history_view().len() == 0,
            r matches Some(m) ==> is_most_common(names_of(self.history_view()), m@),
    {
        let h = &self.command_history;
        let ghost names = names_of(h@);
        if h.len() == 0 {
            return None;
        }
        let mut best: usize = 0;
        let mut best_count = self.count_name(&h[0].name);
        let mut i: usize = 1;
        while i < h.len()
            invariant
                1 <= i <= h.len(),
                best < h.len(),
                names == names_of(h@),
                names == names_of(self.history_view()),
                best_count == count_of(names, names[best as int]),
                forall|k: int| 0 <= k < i ==> count_of(names, #[trigger] names[k]) <= best_count,
            decreases h.len() - i,
        {
            let c = self.count_name(&h[i].name);
            if c > best_count {
                best = i;
                best_count = c;
            }
            i = i + 1;
        }
        assert(names.contains(names[best as int]));
        Some(h[best].name.clone())
    }

    /// Every command parsed so far, oldest first.
    pub fn history(&self) -> (r: &[Command])
        ensures
            r@ == self.history_view(),
    {
        self.command_history.as_slice()
    }
}

} // verus!
