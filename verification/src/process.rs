//! The process actor: a machine's state is handed to an external command as
//! its arguments. This module builds the command line; starting the
//! process is left to the caller.

use vstd::prelude::*;
use crate::machine::{api_state_of, ApiMachineState, MachineState, Status, StatusView};
use crate::user::user_id_display;

verus! {

/// Whether `c` is white space in the Unicode sense (the property that
/// `char::is_whitespace` tests).
pub open spec fn is_whitespace(c: char) -> bool {
    ||| '\u{9}' <= c <= '\u{d}'
    ||| c == ' '
    ||| c == '\u{85}'
    ||| c == '\u{a0}'
    ||| c == '\u{1680}'
    ||| '\u{2000}' <= c <= '\u{200a}'
    ||| c == '\u{2028}'
    ||| c == '\u{2029}'
    ||| c == '\u{202f}'
    ||| c == '\u{205f}'
    ||| c == '\u{3000}'
}

fn char_is_whitespace(c: char) -> (r: bool)
    ensures
        r == is_whitespace(c),
{
    ('\u{9}' <= c && c <= '\u{d}') || c == ' ' || c == '\u{85}' || c == '\u{a0}' || c == '\u{1680}'
        || ('\u{2000}' <= c && c <= '\u{200a}') || c == '\u{2028}' || c == '\u{2029}' || c
        == '\u{202f}' || c == '\u{205f}' || c == '\u{3000}'
}

/// The words of `s`: its longest runs of characters that are not white
/// space, in order.
pub open spec fn words(s: Seq<char>) -> Seq<Seq<char>>
    decreases s.len(),
{
    if s.len() == 0 {
        seq![]
    } else {
        let prev = words(s.drop_last());
        if is_whitespace(s.last()) {
            prev
        } else if s.len() == 1 || is_whitespace(s[s.len() - 2]) {
            prev.push(seq![s.last()])
        } else {
            prev.update(prev.len() - 1, prev.last().push(s.last()))
        }
    }
}

proof fn lemma_words_nonempty_at_word_end(s: Seq<char>)
    requires
        s.len() > 0,
        !is_whitespace(s.last()),
    ensures
        words(s).len() > 0,
        words(s).last().len() > 0,
        words(s).last().last() == s.last(),
    decreases s.len(),
{
    if s.len() > 1 && !is_whitespace(s[s.len() - 2]) {
        let t = s.drop_last();
        assert(t.last() == s[s.len() - 2]);
        lemma_words_nonempty_at_word_end(t);
    }
}

/// Every word is a non-empty run of characters none of which is white
/// space; a non-empty string without white space is one word.
pub proof fn law_words_are_nonempty_runs(s: Seq<char>)
    ensures
        forall|i: int| 0 <= i < words(s).len() ==> (#[trigger] words(s)[i]).len() > 0,
        forall|i: int, j: int|
            0 <= i < words(s).len() && 0 <= j < words(s)[i].len() ==> !is_whitespace(
                #[trigger] words(s)[i][j],
            ),
        s.len() > 0 && (forall|j: int| 0 <= j < s.len() ==> !is_whitespace(#[trigger] s[j])) ==> words(s)
            == seq![s],
    decreases s.len(),
{
    if s.len() > 0 {
        let t = s.drop_last();
        law_words_are_nonempty_runs(t);
        if !is_whitespace(s.last()) && !(s.len() == 1 || is_whitespace(s[s.len() - 2])) {
            assert(t.last() == s[s.len() - 2]);
            lemma_words_nonempty_at_word_end(t);
        }
        if forall|j: int| 0 <= j < s.len() ==> !is_whitespace(#[trigger] s[j]) {
            if s.len() > 1 {
                assert(forall|j: int| 0 <= j < t.len() ==> t[j] == s[j]);
                assert(words(t) == seq![t]);
                assert(!is_whitespace(s[s.len() - 2]));
                assert(t.push(s.last()) =~= s);
                assert(words(s) =~= seq![s]);
            } else {
                assert(seq![s.last()] =~= s);
                assert(words(t) =~= Seq::<Seq<char>>::empty());
                assert(words(s) =~= seq![s]);
            }
        }
    }
}

/// Splitting at a white space character splits the words: the words of
/// `a`, a white space character and `b` are the words of `a` followed by
/// those of `b`.
pub proof fn law_words_split_at_white_space(a: Seq<char>, c: char, b: Seq<char>)
    requires
        is_whitespace(c),
    ensures
        words(a + seq![c] + b) == words(a) + words(b),
    decreases b.len(),
{
    let t = a + seq![c] + b;
    if b.len() == 0 {
        assert(t.drop_last() =~= a);
        assert(words(b) =~= Seq::<Seq<char>>::empty());
        assert(words(a) + words(b) =~= words(a));
    } else {
        let b1 = b.drop_last();
        law_words_split_at_white_space(a, c, b1);
        assert(t.drop_last() =~= a + seq![c] + b1);
        assert(t.last() == b.last());
        if b.len() == 1 {
            assert(t[t.len() - 2] == c);
            assert(words(b1) =~= Seq::<Seq<char>>::empty());
        } else {
            assert(t[t.len() - 2] == b[b.len() - 2]);
        }
        if !is_whitespace(b.last()) {
            if b.len() == 1 || is_whitespace(b[b.len() - 2]) {
                assert(words(t) =~= words(a) + words(b));
            } else {
                assert(b1.last() == b[b.len() - 2]);
                lemma_words_nonempty_at_word_end(b1);
                let w = words(b1);
                assert((words(a) + w).last() == w.last());
                assert((words(a) + w).update((words(a) + w).len() - 1, w.last().push(b.last())) =~= words(a)
                    + w.update(w.len() - 1, w.last().push(b.last())));
            }
        }
    }
}

pub open spec fn string_views(v: Seq<String>) -> Seq<Seq<char>> {
    v.map_values(|w: String| w@)
}

/// Splits `s` into its words, as `str::split_whitespace` does.
pub fn split_whitespace(s: &str) -> (v: Vec<String>)
    ensures
        string_views(v@) == words(s@),
{
    let n = s.unicode_len();
    let mut out: Vec<String> = Vec::new();
    let mut in_word = false;
    let mut start: usize = 0;
    let mut i: usize = 0;
    while i < n
        invariant
            n == s@.len(),
            i <= n,
            start <= i,
            in_word ==> start < i,
            in_word ==> words(s@.take(i as int)) == string_views(out@).push(s@.subrange(start as int, i as int)),
            !in_word ==> words(s@.take(i as int)) == string_views(out@),
            !in_word ==> (i == 0 || is_whitespace(s@[i - 1])),
            in_word ==> !is_whitespace(s@[i - 1]),
        decreases n - i,
    {
        let c = s.get_char(i);
        let ghost t = s@.take(i as int + 1);
        proof {
            assert(t.drop_last() =~= s@.take(i as int));
            assert(t.last() == c);
            if i > 0 {
                assert(t[t.len() - 2] == s@[i - 1]);
            }
        }
        if char_is_whitespace(c) {
            if in_word {
                let w = String::from_str(s.substring_char(start, i));
                let ghost before = out@;
                out.push(w);
                in_word = false;
                assert(string_views(out@) =~= string_views(before).push(w@)) by {
                    assert(out@ =~= before.push(w));
                };
            }
        } else {
            if !in_word {
                start = i;
                in_word = true;
                assert(s@.subrange(start as int, i as int + 1) =~= seq![c]);
            } else {
                assert(s@.subrange(start as int, i as int + 1) =~= s@.subrange(start as int, i as int).push(c));
            }
        }
        i = i + 1;
    }
    if in_word {
        let w = String::from_str(s.substring_char(start, n));
        let ghost before = out@;
        out.push(w);
        assert(out@ =~= before.push(w));
    }
    assert(s@.take(n as int) =~= s@);
    assert(string_views(out@) =~= words(s@));
    out
}

/// An actor that runs a command for every state a machine enters.
pub struct Process {
    name: String,
    cmd: String,
    args: Vec<String>,
}

/// The arguments that describe a state: its name, and the user concerned
/// where there is one.
pub open spec fn status_words(s: StatusView) -> Seq<Seq<char>> {
    match s {
        StatusView::Free => seq!["free"@],
        StatusView::InUse(None) => seq!["inuse"@],
        StatusView::InUse(Some(u)) => seq!["inuse"@, user_id_display(u)],
        StatusView::ToCheck(u) => seq!["tocheck"@, user_id_display(u)],
        StatusView::Blocked(u) => seq!["blocked"@, user_id_display(u)],
        StatusView::Disabled => seq!["disabled"@],
        StatusView::Reserved(u) => seq!["reserved"@, user_id_display(u)],
    }
}

/// The word by which the process actor names a machine state of the API.
pub open spec fn api_state_word(a: ApiMachineState) -> Seq<char> {
    match a {
        ApiMachineState::Free => "free"@,
        ApiMachineState::InUse => "inuse"@,
        ApiMachineState::ToCheck => "tocheck"@,
        ApiMachineState::Blocked => "blocked"@,
        ApiMachineState::Disabled => "disabled"@,
        ApiMachineState::Reserved => "reserved"@,
    }
}

/// The command line of an actor with configured arguments `args` and name
/// `name` for the state `s` is those arguments, the name, the word of the
/// state, and then, for a state that names a user (the one using, checking,
/// blocking or holding a reservation on the machine), that user's id as
/// displayed; a free, anonymously used or disabled machine gets the word
/// alone.
pub proof fn law_command_line_names_state_and_user(args: Seq<Seq<char>>, name: Seq<char>, s: StatusView)
    ensures
        ({
            let cmd = args + seq![name] + status_words(s);
            &&& cmd.subrange(0, args.len() as int) == args
            &&& cmd[args.len() as int] == name
            &&& cmd[args.len() + 1int] == api_state_word(api_state_of(s))
            &&& forall|u: crate::user::UserIdView|
                s == StatusView::InUse(Some(u)) || s == StatusView::ToCheck(u) || s == StatusView::Blocked(u)
                    || s == StatusView::Reserved(u) ==> cmd.len() == args.len() + 3 && cmd[args.len() + 2int]
                    == user_id_display(u)
            &&& s == StatusView::Free || s == StatusView::InUse(None) || s == StatusView::Disabled ==> cmd.len()
                == args.len() + 2
        }),
{
    let cmd = args + seq![name] + status_words(s);
    assert(cmd.subrange(0, args.len() as int) =~= args);
}

impl Process {
    pub closed spec fn name_view(&self) -> Seq<char> {
        self.name@
    }

    pub closed spec fn cmd_view(&self) -> Seq<char> {
        self.cmd@
    }

    pub closed spec fn args_view(&self) -> Seq<Seq<char>> {
        string_views(self.args@)
    }

    /// The actor `name` for the module parameters `cmd` and `args`: it needs a
    /// command; the arguments, if given, are split at white space.
    pub fn new(name: String, cmd: Option<&str>, args: Option<&str>) -> (r: Option<Process>)
        ensures
            cmd is None ==> r is None,
            cmd matches Some(c) ==> (r matches Some(p) && p.name_view() == name@ && p.cmd_view() == c@
                && p.args_view() == match args {
                Some(a) => words(a@),
                None => Seq::<Seq<char>>::empty(),
            }),
    {
        match cmd {
            None => None,
            Some(c) => {
                let argv = match args {
                    Some(a) => split_whitespace(a),
                    None => {
                        let v: Vec<String> = Vec::new();
                        assert(string_views(v@) =~= Seq::<Seq<char>>::empty());
                        v
                    },
                };
                Some(Process { name, cmd: String::from_str(c), args: argv })
            },
        }
    }

    /// The command to run.
    pub fn cmd(&self) -> (c: &str)
        ensures
            c@ == self.cmd_view(),
    {
        self.cmd.as_str()
    }

    /// The arguments for a run on entering `state`: the configured
    /// arguments, the actor's name, then the state's words.
    pub fn command_args(&self, state: &MachineState) -> (v: Vec<String>)
        ensures
            string_views(v@) == self.args_view() + seq![self.name_view()] + status_words(state@),
    {
        let mut v: Vec<String> = Vec::new();
        let mut i: usize = 0;
        while i < self.args.len()
            invariant
                i <= self.args@.len(),
                string_views(v@) =~= string_views(self.args@.take(i as int)),
            decreases self.args@.len() - i,
        {
            let a = String::from_str(self.args[i].as_str());
            let ghost before = v@;
            v.push(a);
            assert(v@ =~= before.push(a));
            assert(self.args@.take(i as int + 1) =~= self.args@.take(i as int).push(self.args@[i as int]));
            assert(string_views(v@) =~= string_views(before).push(a@));
            assert(string_views(self.args@.take(i as int + 1)) =~= string_views(self.args@.take(i as int)).push(
                self.args@[i as int]@,
            ));
            i = i + 1;
        }
        assert(self.args@.take(i as int) =~= self.args@);
        v.push(String::from_str(self.name.as_str()));
        match &state.state {
            Status::Free => {
                v.push(String::from_str("free"));
            },
            Status::InUse(by) => {
                v.push(String::from_str("inuse"));
                match by {
                    Some(u) => v.push(u.to_string()),
                    None => {},
                }
            },
            Status::ToCheck(u) => {
                v.push(String::from_str("tocheck"));
                v.push(u.to_string());
            },
            Status::Blocked(u) => {
                v.push(String::from_str("blocked"));
                v.push(u.to_string());
            },
            Status::Disabled => {
                v.push(String::from_str("disabled"));
            },
            Status::Reserved(u) => {
                v.push(String::from_str("reserved"));
                v.push(u.to_string());
            },
        }
        assert(string_views(v@) =~= self.args_view() + seq![self.name_view()] + status_words(state@));
        v
    }
}

} // verus!
