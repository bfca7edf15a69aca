use vstd::prelude::*;
use crate::paths::{join_path, joined_path};
use crate::text::{chars_of, ends_with_text, string_from_chars};
use crate::text::{join_strings, join_texts, slice_texts};

verus! {

pub const START_ON_LOGIN_LABEL: &'static str = "com.typr.app.login";

/// The XML text of one character: `&`, `<`, `>`, `"` and `'` as entities, others as they are.
pub open spec fn escaped_char(c: char) -> Seq<char> {
    if c == '&' {
        "&amp;"@
    } else if c == '<' {
        "&lt;"@
    } else if c == '>' {
        "&gt;"@
    } else if c == '"' {
        "&quot;"@
    } else if c == '\'' {
        "&apos;"@
    } else {
        seq![c]
    }
}

/// A text escaped for XML, character by character.
pub open spec fn xml_escaped(s: Seq<char>) -> Seq<char>
    decreases s.len(),
{
    if s.len() == 0 {
        seq![]
    } else {
        xml_escaped(s.drop_last()) + escaped_char(s.last())
    }
}

/// A text escaped for XML.
pub fn xml_escape(value: &str) -> (r: String)
    ensures
        r@ == xml_escaped(value@),
{
    let v = chars_of(value);
    let mut r = String::new();
    let mut k: usize = 0;
    while k < v.len()
        invariant
            k <= v.len(),
            v@ == value@,
            r@ == xml_escaped(v@.take(k as int)),
        decreases v.len() - k,
    {
        proof {
            assert(v@.take(k + 1).drop_last() =~= v@.take(k as int));
            assert(v@.take(k + 1).last() == v@[k as int]);
        }
        let c = v[k];
        if c == '&' {
            r.append("&amp;");
        } else if c == '<' {
            r.append("&lt;");
        } else if c == '>' {
            r.append("&gt;");
        } else if c == '"' {
            r.append("&quot;");
        } else if c == '\'' {
            r.append("&apos;");
        } else {
            let one = vec![c];
            let piece = string_from_chars(one.as_slice());
            assert(one@ =~= seq![c]);
            r.append(piece.as_str());
        }
        k = k + 1;
    }
    assert(v@.take(v.len() as int) =~= v@);
    r
}

/// An escaped text holds none of `<`, `>`, `"` and `'`.
pub proof fn lemma_escaped_has_no_markup(s: Seq<char>)
    ensures
        !xml_escaped(s).contains('<'),
        !xml_escaped(s).contains('>'),
        !xml_escaped(s).contains('"'),
        !xml_escaped(s).contains('\''),
    decreases s.len(),
{
    reveal_strlit("&amp;");
    reveal_strlit("&lt;");
    reveal_strlit("&gt;");
    reveal_strlit("&quot;");
    reveal_strlit("&apos;");
    if s.len() > 0 {
        lemma_escaped_has_no_markup(s.drop_last());
        let a = xml_escaped(s.drop_last());
        let b = escaped_char(s.last());
        assert forall|c: char| c == '<' || c == '>' || c == '"' || c == '\'' implies !(a + b).contains(c) by {
            if (a + b).contains(c) {
                let i = choose|i: int| 0 <= i < (a + b).len() && (a + b)[i] == c;
                if i < a.len() {
                    assert(a[i] == c);
                } else {
                    assert(b[i - a.len()] == c);
                }
            }
        }
    }
}

/// `s` holds the text `p` from position `i` on.
pub open spec fn has_at(s: Seq<char>, i: int, p: Seq<char>) -> bool {
    0 <= i && i + p.len() <= s.len() && s.subrange(i, i + p.len()) == p
}

/// `s` holds one of the five XML entities from position `i` on.
pub open spec fn entity_at(s: Seq<char>, i: int) -> bool {
    ||| has_at(s, i, seq!['&', 'a', 'm', 'p', ';'])
    ||| has_at(s, i, seq!['&', 'l', 't', ';'])
    ||| has_at(s, i, seq!['&', 'g', 't', ';'])
    ||| has_at(s, i, seq!['&', 'q', 'u', 'o', 't', ';'])
    ||| has_at(s, i, seq!['&', 'a', 'p', 'o', 's', ';'])
}

/// A text with the five XML entities decoded, in one pass from the left.
pub open spec fn xml_unescaped(s: Seq<char>) -> Seq<char>
    decreases s.len(),
{
    if s.len() == 0 {
        seq![]
    } else if has_at(s, 0, seq!['&', 'a', 'm', 'p', ';']) {
        seq!['&'] + xml_unescaped(s.skip(5))
    } else if has_at(s, 0, seq!['&', 'l', 't', ';']) {
        seq!['<'] + xml_unescaped(s.skip(4))
    } else if has_at(s, 0, seq!['&', 'g', 't', ';']) {
        seq!['>'] + xml_unescaped(s.skip(4))
    } else if has_at(s, 0, seq!['&', 'q', 'u', 'o', 't', ';']) {
        seq!['"'] + xml_unescaped(s.skip(6))
    } else if has_at(s, 0, seq!['&', 'a', 'p', 'o', 's', ';']) {
        seq!['\''] + xml_unescaped(s.skip(6))
    } else {
        seq![s[0]] + xml_unescaped(s.skip(1))
    }
}

proof fn lemma_entity_texts()
    ensures
        "&amp;"@ == seq!['&', 'a', 'm', 'p', ';'],
        "&lt;"@ == seq!['&', 'l', 't', ';'],
        "&gt;"@ == seq!['&', 'g', 't', ';'],
        "&quot;"@ == seq!['&', 'q', 'u', 'o', 't', ';'],
        "&apos;"@ == seq!['&', 'a', 'p', 'o', 's', ';'],
{
    reveal_strlit("&amp;");
    reveal_strlit("&lt;");
    reveal_strlit("&gt;");
    reveal_strlit("&quot;");
    reveal_strlit("&apos;");
    assert("&amp;"@ =~= seq!['&', 'a', 'm', 'p', ';']);
    assert("&lt;"@ =~= seq!['&', 'l', 't', ';']);
    assert("&gt;"@ =~= seq!['&', 'g', 't', ';']);
    assert("&quot;"@ =~= seq!['&', 'q', 'u', 'o', 't', ';']);
    assert("&apos;"@ =~= seq!['&', 'a', 'p', 'o', 's', ';']);
}

/// Escaping a text that starts with `c` starts with the escape of `c`.
proof fn lemma_escaped_cons(c: char, t: Seq<char>)
    ensures
        xml_escaped(seq![c] + t) == escaped_char(c) + xml_escaped(t),
    decreases t.len(),
{
    let u = seq![c] + t;
    if t.len() == 0 {
        assert(u.drop_last() =~= Seq::<char>::empty());
        assert(xml_escaped(u.drop_last()) =~= Seq::<char>::empty());
        assert(u.last() == c);
        assert(xml_escaped(t) =~= Seq::<char>::empty());
        assert(xml_escaped(u) =~= escaped_char(c) + xml_escaped(t));
    } else {
        lemma_escaped_cons(c, t.drop_last());
        assert(u.drop_last() =~= seq![c] + t.drop_last());
        assert(u.last() == t.last());
        assert(xml_escaped(u) =~= escaped_char(c) + xml_escaped(t));
    }
}

/// Decoding a text that starts with the escape of `c` gives `c`, then the rest decoded.
proof fn lemma_unescape_cons(c: char, rest: Seq<char>)
    ensures
        xml_unescaped(escaped_char(c) + rest) == seq![c] + xml_unescaped(rest),
{
    lemma_entity_texts();
    let e = escaped_char(c);
    let w = e + rest;
    let amp = seq!['&', 'a', 'm', 'p', ';'];
    let lt = seq!['&', 'l', 't', ';'];
    let gt = seq!['&', 'g', 't', ';'];
    let quot = seq!['&', 'q', 'u', 'o', 't', ';'];
    let apos = seq!['&', 'a', 'p', 'o', 's', ';'];
    assert(w.subrange(0, e.len() as int) =~= e);
    assert(w.skip(e.len() as int) =~= rest);
    assert forall|i: int| 0 <= i < e.len() implies w[i] == e[i] by {}
    if c == '&' {
        assert(has_at(w, 0, amp));
    } else if c == '<' {
        assert(w[1] == 'l');
        assert(!has_at(w, 0, amp)) by {
            if has_at(w, 0, amp) {
                assert(w.subrange(0, 5)[1] == amp[1]);
            }
        }
        assert(has_at(w, 0, lt));
    } else if c == '>' {
        assert(w[1] == 'g');
        assert(!has_at(w, 0, amp)) by {
            if has_at(w, 0, amp) {
                assert(w.subrange(0, 5)[1] == amp[1]);
            }
        }
        assert(!has_at(w, 0, lt)) by {
            if has_at(w, 0, lt) {
                assert(w.subrange(0, 4)[1] == lt[1]);
            }
        }
        assert(has_at(w, 0, gt));
    } else if c == '"' {
        assert(w[1] == 'q');
        assert(!has_at(w, 0, amp)) by {
            if has_at(w, 0, amp) {
                assert(w.subrange(0, 5)[1] == amp[1]);
            }
        }
        assert(!has_at(w, 0, lt)) by {
            if has_at(w, 0, lt) {
                assert(w.subrange(0, 4)[1] == lt[1]);
            }
        }
        assert(!has_at(w, 0, gt)) by {
            if has_at(w, 0, gt) {
                assert(w.subrange(0, 4)[1] == gt[1]);
            }
        }
        assert(has_at(w, 0, quot));
    } else if c == '\'' {
        assert(w[1] == 'a');
        assert(w[2] == 'p');
        assert(!has_at(w, 0, amp)) by {
            if has_at(w, 0, amp) {
                assert(w.subrange(0, 5)[2] == amp[2]);
            }
        }
        assert(!has_at(w, 0, lt)) by {
            if has_at(w, 0, lt) {
                assert(w.subrange(0, 4)[1] == lt[1]);
            }
        }
        assert(!has_at(w, 0, gt)) by {
            if has_at(w, 0, gt) {
                assert(w.subrange(0, 4)[1] == gt[1]);
            }
        }
        assert(!has_at(w, 0, quot)) by {
            if has_at(w, 0, quot) {
                assert(w.subrange(0, 6)[1] == quot[1]);
            }
        }
        assert(has_at(w, 0, apos));
    } else {
        assert(w[0] == c);
        assert(!has_at(w, 0, amp)) by {
            if has_at(w, 0, amp) {
                assert(w.subrange(0, 5)[0] == amp[0]);
            }
        }
        assert(!has_at(w, 0, lt)) by {
            if has_at(w, 0, lt) {
                assert(w.subrange(0, 4)[0] == lt[0]);
            }
        }
        assert(!has_at(w, 0, gt)) by {
            if has_at(w, 0, gt) {
                assert(w.subrange(0, 4)[0] == gt[0]);
            }
        }
        assert(!has_at(w, 0, quot)) by {
            if has_at(w, 0, quot) {
                assert(w.subrange(0, 6)[0] == quot[0]);
            }
        }
        assert(!has_at(w, 0, apos)) by {
            if has_at(w, 0, apos) {
                assert(w.subrange(0, 6)[0] == apos[0]);
            }
        }
    }
}

/// Decoding an escaped text gives the text back: escaping loses nothing and escapes nothing
/// twice.
pub proof fn lemma_unescape_escaped(s: Seq<char>)
    ensures
        xml_unescaped(xml_escaped(s)) == s,
    decreases s.len(),
{
    if s.len() > 0 {
        let t = s.skip(1);
        assert(s =~= seq![s[0]] + t);
        lemma_escaped_cons(s[0], t);
        lemma_unescape_cons(s[0], xml_escaped(t));
        lemma_unescape_escaped(t);
    } else {
        assert(xml_escaped(s) =~= Seq::<char>::empty());
    }
}

proof fn lemma_has_at_shift(a: Seq<char>, b: Seq<char>, j: int, p: Seq<char>)
    requires
        has_at(b, j, p),
    ensures
        has_at(a + b, j + a.len(), p),
{
    assert((a + b).subrange(j + a.len(), j + a.len() + p.len()) =~= b.subrange(j, j + p.len()));
}

/// In an escaped text every `&` starts one of the five entities.
pub proof fn lemma_escaped_ampersands_start_entities(s: Seq<char>)
    ensures
        forall|i: int| 0 <= i < xml_escaped(s).len() && #[trigger] xml_escaped(s)[i] == '&'
            ==> entity_at(xml_escaped(s), i),
    decreases s.len(),
{
    lemma_entity_texts();
    if s.len() == 0 {
        assert(xml_escaped(s) =~= Seq::<char>::empty());
    } else {
        let c = s[0];
        let t = s.skip(1);
        assert(s =~= seq![c] + t);
        lemma_escaped_cons(c, t);
        lemma_escaped_ampersands_start_entities(t);
        let e = escaped_char(c);
        let rest = xml_escaped(t);
        let w = e + rest;
        assert(xml_escaped(s) == w);
        assert forall|i: int| 0 <= i < w.len() && #[trigger] w[i] == '&' implies entity_at(w, i) by {
            if i < e.len() {
                assert(w[i] == e[i]);
                assert(i == 0);
                assert(w.subrange(0, e.len() as int) =~= e);
            } else {
                let j = i - e.len();
                assert(w[i] == rest[j]);
                assert(entity_at(rest, j));
                if has_at(rest, j, seq!['&', 'a', 'm', 'p', ';']) {
                    lemma_has_at_shift(e, rest, j, seq!['&', 'a', 'm', 'p', ';']);
                } else if has_at(rest, j, seq!['&', 'l', 't', ';']) {
                    lemma_has_at_shift(e, rest, j, seq!['&', 'l', 't', ';']);
                } else if has_at(rest, j, seq!['&', 'g', 't', ';']) {
                    lemma_has_at_shift(e, rest, j, seq!['&', 'g', 't', ';']);
                } else if has_at(rest, j, seq!['&', 'q', 'u', 'o', 't', ';']) {
                    lemma_has_at_shift(e, rest, j, seq!['&', 'q', 'u', 'o', 't', ';']);
                } else {
                    lemma_has_at_shift(e, rest, j, seq!['&', 'a', 'p', 'o', 's', ';']);
                }
            }
        }
    }
}

/// The last path component of a path text: what follows its last `/`.
pub open spec fn last_component(p: Seq<char>) -> Seq<char>
    decreases p.len(),
{
    if p.len() == 0 {
        p
    } else if p.last() == '/' {
        seq![]
    } else {
        last_component(p.drop_last()).push(p.last())
    }
}

/// A file name with the extension `app`: something, then `.app`.
pub open spec fn is_app_name(name: Seq<char>) -> bool {
    name.len() >= 5 && ".app"@.is_suffix_of(name)
}

/// The longest of the path text and its prefixes that end before a `/`, with at most `k`
/// characters, whose last component has the extension `app`.
pub open spec fn app_bundle_within(p: Seq<char>, k: int) -> Option<Seq<char>>
    decreases k,
{
    if k < 0 || k > p.len() {
        None
    } else if (k == p.len() || p[k] == '/') && is_app_name(last_component(p.take(k))) {
        Some(p.take(k))
    } else if k == 0 {
        None
    } else {
        app_bundle_within(p, k - 1)
    }
}

/// The app bundle that holds an executable: the innermost enclosing path (the path itself
/// included) whose last component has the extension `app`.
pub open spec fn app_bundle_of(p: Seq<char>) -> Option<Seq<char>> {
    app_bundle_within(p, p.len() as int)
}

fn last_component_of(v: &Vec<char>, k: usize) -> (r: Vec<char>)
    requires
        k <= v.len(),
    ensures
        r@ == last_component(v@.take(k as int)),
{
    let mut start = k;
    while start > 0 && v[start - 1] != '/'
        invariant
            start <= k <= v.len(),
            last_component(v@.take(k as int)) == last_component(v@.take(start as int)) + v@.subrange(
                start as int,
                k as int,
            ),
        decreases start,
    {
        proof {
            let t = v@.take(start as int);
            assert(t.drop_last() =~= v@.take(start - 1));
            assert(t.last() == v@[start - 1]);
            assert(v@.subrange(start - 1, k as int) =~= seq![v@[start - 1]] + v@.subrange(
                start as int,
                k as int,
            ));
            assert(last_component(v@.take(start - 1)).push(v@[start - 1]) + v@.subrange(start as int, k as int)
                =~= last_component(v@.take(start - 1)) + v@.subrange(start - 1, k as int));
        }
        start = start - 1;
    }
    proof {
        if start > 0 {
            let t = v@.take(start as int);
            assert(t.last() == v@[start - 1]);
            assert(last_component(t) =~= Seq::<char>::empty());
        } else {
            assert(v@.take(0) =~= Seq::<char>::empty());
        }
        assert(last_component(v@.take(start as int)) + v@.subrange(start as int, k as int) =~= v@.subrange(
            start as int,
            k as int,
        ));
    }
    let mut r: Vec<char> = Vec::new();
    let mut m = start;
    while m < k
        invariant
            start <= m <= k <= v.len(),
            r@ == v@.subrange(start as int, m as int),
        decreases k - m,
    {
        r.push(v[m]);
        m = m + 1;
    }
    r
}

/// The app bundle that holds the executable at `exe_path`, if any.
pub fn current_app_bundle_path(exe_path: &str) -> (r: Option<String>)
    ensures
        match r {
            Some(b) => app_bundle_of(exe_path@) == Some(b@),
            None => app_bundle_of(exe_path@) is None,
        },
{
    let v = chars_of(exe_path);
    let mut k = v.len();
    loop
        invariant
            k <= v.len(),
            v@ == exe_path@,
            app_bundle_of(v@) == app_bundle_within(v@, k as int),
        decreases k,
    {
        if k == v.len() || v[k] == '/' {
            let name = last_component_of(&v, k);
            let name_text = string_from_chars(name.as_slice());
            if name.len() >= 5 && ends_with_text(name_text.as_str(), ".app") {
                let mut prefix: Vec<char> = Vec::new();
                let mut m: usize = 0;
                while m < k
                    invariant
                        m <= k <= v.len(),
                        prefix@ == v@.take(m as int),
                    decreases k - m,
                {
                    prefix.push(v[m]);
                    m = m + 1;
                    assert(prefix@ =~= v@.take(m as int));
                }
                return Some(string_from_chars(prefix.as_slice()));
            }
        }
        if k == 0 {
            return None;
        }
        k = k - 1;
    }
}

/// The command that starts the app at login: `open -n` on its bundle when it runs from one,
/// else the executable itself.
pub open spec fn login_program_arguments(exe_path: Seq<char>) -> Seq<Seq<char>> {
    match app_bundle_of(exe_path) {
        Some(bundle) => seq!["/usr/bin/open"@, "-n"@, bundle],
        None => seq![exe_path],
    }
}

/// The command that starts the app at login.
pub fn start_on_login_program_arguments(exe_path: &str) -> (r: Vec<String>)
    ensures
        slice_texts(r@) == login_program_arguments(exe_path@),
{
    let mut args: Vec<String> = Vec::new();
    match current_app_bundle_path(exe_path) {
        Some(bundle) => {
            args.push(String::from_str("/usr/bin/open"));
            args.push(String::from_str("-n"));
            args.push(bundle);
        },
        None => {
            args.push(String::from_str(exe_path));
        },
    }
    assert(slice_texts(args@) =~= login_program_arguments(exe_path@));
    args
}

pub const PLIST_HEAD: &'static str = "<?xml version=\"1.0\" encoding=\"UTF-8\"?>\n<!DOCTYPE plist PUBLIC \"-//Apple//DTD PLIST 1.0//EN\" \"http://www.apple.com/DTDs/PropertyList-1.0.dtd\">\n<plist version=\"1.0\">\n<dict>\n  <key>Label</key>\n  <string>";
pub const PLIST_MIDDLE: &'static str = "</string>\n  <key>ProgramArguments</key>\n  <array>\n";
pub const PLIST_TAIL: &'static str = "\n  </array>\n  <key>RunAtLoad</key>\n  <true/>\n</dict>\n</plist>\n";

/// One program argument as a line of the property list.
pub open spec fn argument_line(argument: Seq<char>) -> Seq<char> {
    "    <string>"@ + xml_escaped(argument) + "</string>"@
}

/// The property list lines of the program arguments.
pub open spec fn argument_lines(arguments: Seq<Seq<char>>) -> Seq<Seq<char>> {
    arguments.map_values(|a: Seq<char>| argument_line(a))
}

/// The launch agent property list that runs the program arguments at login.
pub open spec fn launch_agent_text(arguments: Seq<Seq<char>>) -> Seq<char> {
    PLIST_HEAD@ + START_ON_LOGIN_LABEL@ + PLIST_MIDDLE@ + join_texts(argument_lines(arguments), "\n"@)
        + PLIST_TAIL@
}

/// The launch agent property list that runs the program arguments at login.
pub fn launch_agent_plist(program_arguments: &[String]) -> (r: String)
    ensures
        r@ == launch_agent_text(slice_texts(program_arguments@)),
{
    let ghost args = slice_texts(program_arguments@);
    let mut lines: Vec<String> = Vec::new();
    let mut k: usize = 0;
    while k < program_arguments.len()
        invariant
            k <= program_arguments@.len(),
            args == slice_texts(program_arguments@),
            slice_texts(lines@) == argument_lines(args.take(k as int)),
        decreases program_arguments@.len() - k,
    {
        let mut line = String::from_str("    <string>");
        let escaped = xml_escape(program_arguments[k].as_str());
        line.append(escaped.as_str());
        line.append("</string>");
        assert(args[k as int] == program_arguments@[k as int]@);
        assert(line@ == argument_line(args[k as int]));
        lines.push(line);
        assert(args.take(k + 1) =~= args.take(k as int).push(args[k as int]));
        assert(argument_lines(args.take(k + 1)) =~= argument_lines(args.take(k as int)).push(argument_line(args[k as int])));
        assert(slice_texts(lines@) =~= argument_lines(args.take(k + 1)));
        k = k + 1;
    }
    assert(args.take(program_arguments@.len() as int) =~= args);
    let joined = join_strings(&lines, "\n");
    let mut r = String::from_str(PLIST_HEAD);
    r.append(START_ON_LOGIN_LABEL);
    r.append(PLIST_MIDDLE);
    r.append(joined.as_str());
    r.append(PLIST_TAIL);
    r
}

/// The launch agent file under the home directory.
pub fn launch_agent_path(home: &str) -> (r: String)
    ensures
        r@ == joined_path(
            joined_path(joined_path(home@, "Library"@), "LaunchAgents"@),
            "com.typr.app.login.plist"@,
        ),
{
    let library = join_path(home, "Library");
    let agents = join_path(library.as_str(), "LaunchAgents");
    join_path(agents.as_str(), "com.typr.app.login.plist")
}

/// The launch agent property list that starts the executable at `exe_path` at login.
pub fn start_on_login_plist(exe_path: &str) -> (r: String)
    ensures
        r@ == launch_agent_text(login_program_arguments(exe_path@)),
{
    let args = start_on_login_program_arguments(exe_path);
    launch_agent_plist(args.as_slice())
}

/// What turning start on login on or off does to the launch agent file.
#[derive(Debug, PartialEq)]
pub enum LoginAgentChange {
    /// Write the property list to the launch agent file, creating its directory.
    Write { path: String, contents: String },
    /// Remove the launch agent file when it exists.
    Remove { path: String },
}

/// The change to the launch agent file at `agent_path`: when enabled, write the property list
/// that starts the executable at `exe_path`; else remove the file.
pub fn start_on_login_change(enabled: bool, agent_path: &str, exe_path: &str) -> (r: LoginAgentChange)
    ensures
        enabled ==> (r matches LoginAgentChange::Write { path, contents } && path@ == agent_path@
            && contents@ == launch_agent_text(login_program_arguments(exe_path@))),
        !enabled ==> (r matches LoginAgentChange::Remove { path } && path@ == agent_path@),
{
    if enabled {
        LoginAgentChange::Write {
            path: String::from_str(agent_path),
            contents: start_on_login_plist(exe_path),
        }
    } else {
        LoginAgentChange::Remove { path: String::from_str(agent_path) }
    }
}

} // verus!
