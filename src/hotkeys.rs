//! The hotkey configuration file: its line grammar, the key combinations
//! it binds, and the strokes that press them.
use vstd::prelude::*;

use crate::keys::{parse_key, KeyDirection, VirtualKey};
use crate::text::{
    chars_of, copy_range, find_char, find_char_from, range_equals, rfind_char, rfind_char_in,
    trim, trim_range,
};

verus! {

/// The pieces of `s` between the `+` signs.
pub open spec fn split_plus(s: Seq<char>) -> Seq<Seq<char>>
    decreases s.len(),
{
    match find_char_from(s, '+', 0) {
        Some(i) => if 0 <= i < s.len() {
            seq![s.subrange(0, i)] + split_plus(s.subrange(i + 1, s.len() as int))
        } else {
            seq![s]
        },
        None => seq![s],
    }
}

/// The keys the trimmed tokens name, or the first token that names none.
pub open spec fn parse_tokens(toks: Seq<Seq<char>>) -> Result<Seq<VirtualKey>, Seq<char>>
    decreases toks.len(),
{
    if toks.len() == 0 {
        Ok(Seq::empty())
    } else {
        match parse_key(trim(toks[0])) {
            None => Err(trim(toks[0])),
            Some(k) => match parse_tokens(toks.drop_first()) {
                Ok(ks) => Ok(seq![k] + ks),
                Err(e) => Err(e),
            },
        }
    }
}

/// A combination such as `ctrl + c`: every `+`-separated token, trimmed,
/// must name a key; otherwise the first that does not is reported.
pub open spec fn parse_combo(s: Seq<char>) -> Result<Seq<VirtualKey>, Seq<char>> {
    parse_tokens(split_plus(s))
}

pub open spec fn prepend_keys(ks: Seq<VirtualKey>, r: Result<Seq<VirtualKey>, Seq<char>>) -> Result<
    Seq<VirtualKey>,
    Seq<char>,
> {
    match r {
        Ok(x) => Ok(ks + x),
        Err(e) => Err(e),
    }
}

/// One parsed binding: the command's name and the keys it presses.
pub struct CommandModel {
    pub name: Seq<char>,
    pub keys: Seq<VirtualKey>,
}

/// One section of the file.
pub struct SectionModel {
    pub name: Seq<char>,
    pub exe_filter: Option<Seq<char>>,
    pub commands: Seq<CommandModel>,
}

/// A problem with one line; the line is skipped.
pub enum WarningModel {
    DuplicateExeFilter { line: nat },
    MissingExeFilter { line: nat },
    MissingAppName { line: nat },
    UnrecognizedDirective { directive: Seq<char>, line: nat },
    NoColon { text: Seq<char>, line: nat },
    BadHotkey { key: Seq<char>, line: nat },
}

/// The parse so far: warnings, finished sections and the open one.
pub struct ParseModel {
    pub warnings: Seq<WarningModel>,
    pub sections: Seq<SectionModel>,
    pub current: SectionModel,
}

pub open spec fn global_section() -> SectionModel {
    SectionModel {
        name: seq!['G', 'l', 'o', 'b', 'a', 'l'],
        exe_filter: None,
        commands: Seq::empty(),
    }
}

pub open spec fn initial_parse() -> ParseModel {
    ParseModel { warnings: Seq::empty(), sections: Seq::empty(), current: global_section() }
}

pub open spec fn exefilter_directive() -> Seq<char> {
    seq!['@', 'e', 'x', 'e', 'f', 'i', 'l', 't', 'e', 'r']
}

pub open spec fn app_directive() -> Seq<char> {
    seq!['@', 'a', 'p', 'p']
}

/// The name a binding gets: `<display name> (<combination as written>)`.
pub open spec fn command_name(display: Seq<char>, combo: Seq<char>) -> Seq<char> {
    display + seq![' ', '('] + combo + seq![')']
}

pub open spec fn warn(st: ParseModel, w: WarningModel) -> ParseModel {
    ParseModel { warnings: st.warnings.push(w), ..st }
}

/// A directive line `t` (it starts with `@`), number `n`.
pub open spec fn directive_step(st: ParseModel, t: Seq<char>, n: nat) -> ParseModel {
    let sp = find_char_from(t, ' ', 0);
    let directive = match sp {
        Some(p) => trim(t.subrange(0, p)),
        None => trim(t),
    };
    let value = match sp {
        Some(p) => Some(t.subrange(p + 1, t.len() as int)),
        None => None::<Seq<char>>,
    };
    if directive == exefilter_directive() {
        if st.current.exe_filter is Some {
            warn(st, WarningModel::DuplicateExeFilter { line: n })
        } else {
            match value {
                None => warn(st, WarningModel::MissingExeFilter { line: n }),
                Some(v) => ParseModel {
                    current: SectionModel { exe_filter: Some(trim(v)), ..st.current },
                    ..st
                },
            }
        }
    } else if directive == app_directive() {
        match value {
            None => warn(st, WarningModel::MissingAppName { line: n }),
            Some(v) => ParseModel {
                sections: st.sections.push(st.current),
                current: SectionModel { name: trim(v), exe_filter: None, commands: Seq::empty() },
                ..st
            },
        }
    } else {
        warn(st, WarningModel::UnrecognizedDirective { directive: directive, line: n })
    }
}

/// A binding line `t`, number `n`: the combination follows the last colon.
pub open spec fn binding_step(st: ParseModel, t: Seq<char>, n: nat) -> ParseModel {
    match rfind_char(t, ':') {
        None => warn(st, WarningModel::NoColon { text: t, line: n }),
        Some(k) => {
            let combo = trim(t.subrange(k + 1, t.len() as int));
            let display = trim(t.subrange(0, k));
            match parse_combo(combo) {
                Ok(keys) => ParseModel {
                    current: SectionModel {
                        commands: st.current.commands.push(
                            CommandModel { name: command_name(display, combo), keys: keys },
                        ),
                        ..st.current
                    },
                    ..st
                },
                Err(tok) => warn(st, WarningModel::BadHotkey { key: tok, line: n }),
            }
        },
    }
}

/// One line, number `n`: blank lines and `#` comments are skipped.
pub open spec fn line_step(st: ParseModel, line: Seq<char>, n: nat) -> ParseModel {
    let t = trim(line);
    if t.len() == 0 || t[0] == '#' {
        st
    } else if t[0] == '@' {
        directive_step(st, t, n)
    } else {
        binding_step(st, t, n)
    }
}

/// The parse of the lines of `s` (split at each newline; no empty line
/// after a final newline), the first being number `n + 1`.
pub open spec fn parse_lines(st: ParseModel, s: Seq<char>, n: nat) -> ParseModel
    decreases s.len(),
{
    if s.len() == 0 {
        st
    } else {
        match find_char_from(s, '\n', 0) {
            Some(i) => if 0 <= i < s.len() {
                parse_lines(
                    line_step(st, s.subrange(0, i), n + 1),
                    s.subrange(i + 1, s.len() as int),
                    n + 1,
                )
            } else {
                st
            },
            None => line_step(st, s, n + 1),
        }
    }
}

/// The sections and warnings of a whole file.
pub open spec fn parse_file(s: Seq<char>) -> (Seq<WarningModel>, Seq<SectionModel>) {
    let st = parse_lines(initial_parse(), s, 0);
    (st.warnings, st.sections.push(st.current))
}

/// A text without a colon has no last colon.
pub proof fn lemma_rfind_absent(s: Seq<char>, c: char)
    requires
        forall|i: int| 0 <= i < s.len() ==> s[i] != c,
    ensures
        rfind_char(s, c) is None,
    decreases s.len(),
{
    if s.len() > 0 {
        lemma_rfind_absent(s.drop_last(), c);
    }
}

/// A line that is neither blank, a comment nor a directive, and has no
/// colon, adds one warning and no binding.
pub proof fn lemma_line_without_colon(st: ParseModel, line: Seq<char>, n: nat)
    requires
        trim(line).len() > 0,
        trim(line)[0] != '#',
        trim(line)[0] != '@',
        forall|i: int| 0 <= i < trim(line).len() ==> trim(line)[i] != ':',
    ensures
        line_step(st, line, n) == warn(st, WarningModel::NoColon { text: trim(line), line: n }),
        line_step(st, line, n).sections == st.sections,
        line_step(st, line, n).current == st.current,
{
    lemma_rfind_absent(trim(line), ':');
}

/// Keys to press, in order, to play a combination.
#[derive(Debug, Clone, PartialEq, Eq)]
pub struct HotkeyCombination {
    pub keys: Vec<VirtualKey>,
}

/// Presses `keys` down in order, then releases them in reverse.
pub open spec fn press_strokes(keys: Seq<VirtualKey>) -> Seq<(VirtualKey, KeyDirection)> {
    keys.map_values(|k: VirtualKey| (k, KeyDirection::Down)) + keys.reverse().map_values(
        |k: VirtualKey| (k, KeyDirection::Up),
    )
}

/// The keys of `chars[a..b]` read as a combination, or the bounds of the
/// first token that names no key.
fn parse_combo_range(chars: &Vec<char>, a: usize, b: usize) -> (r: Result<
    Vec<VirtualKey>,
    (usize, usize),
>)
    requires
        a <= b <= chars@.len(),
    ensures
        match parse_combo(chars@.subrange(a as int, b as int)) {
            Ok(ks) => r matches Ok(v) && v@ == ks,
            Err(tok) => r matches Err((x, y)) && x <= y <= chars@.len() && chars@.subrange(
                x as int,
                y as int,
            ) == tok,
        },
{
    let mut keys: Vec<VirtualKey> = Vec::new();
    let mut start = a;
    assert(prepend_keys(keys@, parse_combo(chars@.subrange(a as int, b as int))) =~= parse_combo(
        chars@.subrange(a as int, b as int),
    )) by {
        assert(keys@ + Seq::<VirtualKey>::empty() =~= Seq::<VirtualKey>::empty());
        match parse_combo(chars@.subrange(a as int, b as int)) {
            Ok(x) => {
                assert(keys@ + x =~= x);
            },
            Err(_) => {},
        }
    }
    loop
        invariant
            a <= start <= b <= chars@.len(),
            parse_combo(chars@.subrange(a as int, b as int)) == prepend_keys(
                keys@,
                parse_combo(chars@.subrange(start as int, b as int)),
            ),
        decreases b - start,
    {
        let ghost seg = chars@.subrange(start as int, b as int);
        let j = find_char(chars, '+', start, b);
        let (ta, tb) = trim_range(chars, start, j);
        let tok = copy_range(chars, ta, tb);
        proof {
            if j < b {
                assert(seg.subrange(0, j - start) =~= chars@.subrange(start as int, j as int));
                assert(seg.subrange(j - start + 1, seg.len() as int) =~= chars@.subrange(j + 1, b as int));
            } else {
                assert(seg =~= chars@.subrange(start as int, j as int));
            }
        }
        let ghost toks = split_plus(seg);
        assert(toks[0] == chars@.subrange(start as int, j as int));
        match VirtualKey::parse_chars(&tok) {
            None => {
                return Err((ta, tb));
            },
            Some(k) => {
                let ghost before = keys@;
                keys.push(k);
                if j == b {
                    proof {
                        assert(toks.drop_first() =~= Seq::<Seq<char>>::empty());
                        assert(before + seq![k] =~= keys@);
                    }
                    return Ok(keys);
                }
                proof {
                    assert(toks.drop_first() =~= split_plus(chars@.subrange(j + 1, b as int)));
                    match parse_combo(chars@.subrange(j + 1, b as int)) {
                        Ok(x) => {
                            assert(before + (seq![k] + x) =~= keys@ + x);
                        },
                        Err(_) => {},
                    }
                }
                start = j + 1;
            },
        }
    }
}

impl HotkeyCombination {
    /// Reads a combination such as `ctrl+c`; the error is the first token
    /// that names no key.
    pub fn parse(s: &str) -> (r: Result<HotkeyCombination, String>)
        ensures
            match parse_combo(s@) {
                Ok(ks) => r matches Ok(c) && c.keys@ == ks,
                Err(tok) => r matches Err(e) && e@ == tok,
            },
    {
        let chars = chars_of(s);
        assert(chars@.subrange(0, chars@.len() as int) =~= chars@);
        match parse_combo_range(&chars, 0, chars.len()) {
            Ok(keys) => Ok(HotkeyCombination { keys: keys }),
            Err((x, y)) => Err(s.substring_char(x, y).to_owned()),
        }
    }

    /// The strokes that play the combination: every key down in order, then
    /// every key up in reverse order.
    pub fn press(&self) -> (r: Vec<(VirtualKey, KeyDirection)>)
        ensures
            r@ == press_strokes(self.keys@),
    {
        let mut r: Vec<(VirtualKey, KeyDirection)> = Vec::new();
        let n = self.keys.len();
        let mut i: usize = 0;
        while i < n
            invariant
                n == self.keys@.len(),
                i <= n,
                r@ == self.keys@.subrange(0, i as int).map_values(|k: VirtualKey| (k, KeyDirection::Down)),
            decreases n - i,
        {
            r.push((self.keys[i], KeyDirection::Down));
            assert(r@ =~= self.keys@.subrange(0, i + 1).map_values(|k: VirtualKey| (k, KeyDirection::Down)));
            i += 1;
        }
        let ghost downs = r@;
        assert(self.keys@.subrange(0, n as int) =~= self.keys@);
        let mut j: usize = n;
        while j > 0
            invariant
                n == self.keys@.len(),
                j <= n,
                downs == self.keys@.map_values(|k: VirtualKey| (k, KeyDirection::Down)),
                r@ == downs + self.keys@.reverse().subrange(0, (n - j) as int).map_values(
                    |k: VirtualKey| (k, KeyDirection::Up),
                ),
            decreases j,
        {
            r.push((self.keys[j - 1], KeyDirection::Up));
            assert(self.keys@.reverse()[(n - j) as int] == self.keys@[j - 1]);
            assert(r@ =~= downs + self.keys@.reverse().subrange(0, (n - j + 1) as int).map_values(
                |k: VirtualKey| (k, KeyDirection::Up),
            ));
            j -= 1;
        }
        assert(self.keys@.reverse().subrange(0, n as int) =~= self.keys@.reverse());
        r
    }
}

/// One binding: the command's name and the combination it presses.
#[derive(Debug, Clone, PartialEq, Eq)]
pub struct HotkeyCommand {
    pub name: String,
    pub hotkey: HotkeyCombination,
}

/// A section of the file: its name, an optional filter on the foreground
/// executable's path, and its bindings.
#[derive(Debug, Clone, PartialEq, Eq)]
pub struct HotkeySection {
    pub name: String,
    pub exe_filter: Option<String>,
    pub commands: Vec<HotkeyCommand>,
}

/// A problem with one line, which the parse skips.
#[derive(Debug, Clone, PartialEq, Eq)]
pub enum HotkeyWarning {
    DuplicateExeFilter { line: usize },
    MissingExeFilter { line: usize },
    MissingAppName { line: usize },
    UnrecognizedDirective { directive: String, line: usize },
    NoColon { text: String, line: usize },
    BadHotkey { key: String, line: usize },
}

/// Everything a hotkey file holds.
#[derive(Debug, Clone, PartialEq, Eq)]
pub struct HotkeyParseResult {
    pub warnings: Vec<HotkeyWarning>,
    pub sections: Vec<HotkeySection>,
}

pub open spec fn command_view(c: HotkeyCommand) -> CommandModel {
    CommandModel { name: c.name@, keys: c.hotkey.keys@ }
}

pub open spec fn section_view(s: HotkeySection) -> SectionModel {
    SectionModel {
        name: s.name@,
        exe_filter: match s.exe_filter {
            Some(f) => Some(f@),
            None => None,
        },
        commands: s.commands@.map_values(|c: HotkeyCommand| command_view(c)),
    }
}

pub open spec fn warning_view(w: HotkeyWarning) -> WarningModel {
    match w {
        HotkeyWarning::DuplicateExeFilter { line } => WarningModel::DuplicateExeFilter {
            line: line as nat,
        },
        HotkeyWarning::MissingExeFilter { line } => WarningModel::MissingExeFilter {
            line: line as nat,
        },
        HotkeyWarning::MissingAppName { line } => WarningModel::MissingAppName { line: line as nat },
        HotkeyWarning::UnrecognizedDirective { directive, line } =>
            WarningModel::UnrecognizedDirective { directive: directive@, line: line as nat },
        HotkeyWarning::NoColon { text, line } => WarningModel::NoColon {
            text: text@,
            line: line as nat,
        },
        HotkeyWarning::BadHotkey { key, line } => WarningModel::BadHotkey {
            key: key@,
            line: line as nat,
        },
    }
}

pub open spec fn result_view(r: HotkeyParseResult) -> (Seq<WarningModel>, Seq<SectionModel>) {
    (
        r.warnings@.map_values(|w: HotkeyWarning| warning_view(w)),
        r.sections@.map_values(|s: HotkeySection| section_view(s)),
    )
}

/// The parse in progress.
struct LineParser {
    warnings: Vec<HotkeyWarning>,
    sections: Vec<HotkeySection>,
    current: HotkeySection,
}

impl LineParser {
    spec fn model(&self) -> ParseModel {
        ParseModel {
            warnings: self.warnings@.map_values(|w: HotkeyWarning| warning_view(w)),
            sections: self.sections@.map_values(|s: HotkeySection| section_view(s)),
            current: section_view(self.current),
        }
    }

    fn new() -> (r: Self)
        ensures
            r.model() == initial_parse(),
    {
        let name = "Global".to_owned();
        proof {
            reveal_strlit("Global");
        }
        let r = LineParser {
            warnings: Vec::new(),
            sections: Vec::new(),
            current: HotkeySection { name: name, exe_filter: None, commands: Vec::new() },
        };
        assert(r.model().warnings =~= Seq::<WarningModel>::empty());
        assert(r.model().sections =~= Seq::<SectionModel>::empty());
        assert(r.model().current.commands =~= Seq::<CommandModel>::empty());
        assert(r.model().current.name =~= seq!['G', 'l', 'o', 'b', 'a', 'l']);
        assert(r.model().current =~= global_section());
        r
    }

    fn warn(&mut self, w: HotkeyWarning)
        ensures
            final(self).model() == warn(old(self).model(), warning_view(w)),
    {
        let ghost pre = self.model();
        self.warnings.push(w);
        assert(self.model().warnings =~= pre.warnings.push(warning_view(w)));
    }

    /// A directive line, `chars[a..b]` trimmed, number `n`.
    fn directive_line(&mut self, text: &str, chars: &Vec<char>, a: usize, b: usize, n: usize)
        requires
            chars@ == text@,
            a <= b <= chars@.len(),
        ensures
            final(self).model() == directive_step(
                old(self).model(),
                chars@.subrange(a as int, b as int),
                n as nat,
            ),
    {
        let ghost t = chars@.subrange(a as int, b as int);
        let p = find_char(chars, ' ', a, b);
        let (da, db) = trim_range(chars, a, p);
        proof {
            if p < b {
                assert(t.subrange(0, p - a) =~= chars@.subrange(a as int, p as int));
                assert(t.subrange(p - a + 1, t.len() as int) =~= chars@.subrange(p + 1, b as int));
            } else {
                assert(t =~= chars@.subrange(a as int, p as int));
            }
        }
        if range_equals(chars, da, db, &['@', 'e', 'x', 'e', 'f', 'i', 'l', 't', 'e', 'r']) {
            if self.current.exe_filter.is_some() {
                self.warn(HotkeyWarning::DuplicateExeFilter { line: n });
            } else if p == b {
                self.warn(HotkeyWarning::MissingExeFilter { line: n });
            } else {
                let (va, vb) = trim_range(chars, p + 1, b);
                let ghost pre = self.model();
                self.current.exe_filter = Some(text.substring_char(va, vb).to_owned());
                assert(self.model().current =~= SectionModel {
                    exe_filter: Some(chars@.subrange(va as int, vb as int)),
                    ..pre.current
                });
            }
        } else if range_equals(chars, da, db, &['@', 'a', 'p', 'p']) {
            if p == b {
                self.warn(HotkeyWarning::MissingAppName { line: n });
            } else {
                let (va, vb) = trim_range(chars, p + 1, b);
                let ghost pre = self.model();
                let mut section = HotkeySection {
                    name: text.substring_char(va, vb).to_owned(),
                    exe_filter: None,
                    commands: Vec::new(),
                };
                std::mem::swap(&mut self.current, &mut section);
                self.sections.push(section);
                assert(self.model().sections =~= pre.sections.push(pre.current));
                assert(self.model().current.commands =~= Seq::<CommandModel>::empty());
            }
        } else {
            let directive = text.substring_char(da, db).to_owned();
            self.warn(HotkeyWarning::UnrecognizedDirective { directive: directive, line: n });
        }
    }

    /// A binding line, `chars[a..b]` trimmed, number `n`.
    fn binding_line(&mut self, text: &str, chars: &Vec<char>, a: usize, b: usize, n: usize)
        requires
            chars@ == text@,
            a <= b <= chars@.len(),
        ensures
            final(self).model() == binding_step(
                old(self).model(),
                chars@.subrange(a as int, b as int),
                n as nat,
            ),
    {
        let ghost t = chars@.subrange(a as int, b as int);
        match rfind_char_in(chars, ':', a, b) {
            None => {
                let line_text = text.substring_char(a, b).to_owned();
                self.warn(HotkeyWarning::NoColon { text: line_text, line: n });
            },
            Some(k) => {
                assert(t.subrange(k - a + 1, t.len() as int) =~= chars@.subrange(k + 1, b as int));
                assert(t.subrange(0, k - a) =~= chars@.subrange(a as int, k as int));
                let (ha, hb) = trim_range(chars, k + 1, b);
                let (na, nb) = trim_range(chars, a, k);
                match parse_combo_range(chars, ha, hb) {
                    Ok(keys) => {
                        let mut name = text.substring_char(na, nb).to_owned();
                        name.append(" (");
                        name.append(text.substring_char(ha, hb));
                        name.append(")");
                        proof {
                            reveal_strlit(" (");
                            reveal_strlit(")");
                        }
                        let command = HotkeyCommand { name: name, hotkey: HotkeyCombination { keys: keys } };
                        let ghost pre = self.model();
                        self.current.commands.push(command);
                        assert(self.model().current.commands =~= pre.current.commands.push(command_view(command)));
                        assert(command_view(command).name =~= command_name(
                            chars@.subrange(na as int, nb as int),
                            chars@.subrange(ha as int, hb as int),
                        ));
                    },
                    Err((x, y)) => {
                        let key = text.substring_char(x, y).to_owned();
                        self.warn(HotkeyWarning::BadHotkey { key: key, line: n });
                    },
                }
            },
        }
    }

    /// The line `chars[a..b]`, number `n`.
    fn line(&mut self, text: &str, chars: &Vec<char>, a: usize, b: usize, n: usize)
        requires
            chars@ == text@,
            a <= b <= chars@.len(),
        ensures
            final(self).model() == line_step(old(self).model(), chars@.subrange(a as int, b as int), n as nat),
    {
        let (ta, tb) = trim_range(chars, a, b);
        if ta == tb || chars[ta] == '#' {
            return;
        }
        if chars[ta] == '@' {
            self.directive_line(text, chars, ta, tb, n);
        } else {
            self.binding_line(text, chars, ta, tb, n);
        }
    }
}

/// Reads a hotkey file: sections of bindings, with a warning for each line
/// that is skipped.
pub fn parse_hotkeys(text: &str) -> (r: HotkeyParseResult)
    ensures
        result_view(r) == parse_file(text@),
{
    let chars = chars_of(text);
    let len = chars.len();
    let mut parser = LineParser::new();
    let mut i: usize = 0;
    let mut n: usize = 0;
    assert(chars@.subrange(0, len as int) =~= chars@);
    loop
        invariant
            chars@ == text@,
            len == chars@.len(),
            n <= i <= len,
            parse_lines(parser.model(), chars@.subrange(i as int, len as int), n as nat) == parse_lines(
                initial_parse(),
                chars@,
                0,
            ),
        ensures
            parser.model() == parse_lines(initial_parse(), chars@, 0),
        decreases len - i,
    {
        let ghost s = chars@.subrange(i as int, len as int);
        if i == len {
            assert(s.len() == 0);
            break;
        }
        let j = find_char(&chars, '\n', i, len);
        proof {
            if j < len {
                assert(s.subrange(0, j - i) =~= chars@.subrange(i as int, j as int));
                assert(s.subrange(j - i + 1, s.len() as int) =~= chars@.subrange(j + 1, len as int));
            } else {
                assert(s =~= chars@.subrange(i as int, j as int));
            }
        }
        parser.line(text, &chars, i, j, n + 1);
        n += 1;
        if j == len {
            i = len;
            assert(chars@.subrange(i as int, len as int) =~= Seq::<char>::empty());
        } else {
            i = j + 1;
        }
    }
    let ghost st = parser.model();
    let LineParser { warnings, mut sections, current } = parser;
    sections.push(current);
    let r = HotkeyParseResult { warnings: warnings, sections: sections };
    assert(result_view(r).1 =~= st.sections.push(st.current));
    r
}

} // verus!
