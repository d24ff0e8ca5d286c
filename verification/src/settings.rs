//! The settings store: an in-memory key-value table backed by a dotenv-style
//! file. Parsing a file's content, looking keys up, updating values and
//! re-rendering the file (preserving comments and unknown lines) are all
//! verified; reading and writing the file itself is the caller's business.

use vstd::prelude::*;

use crate::text::first_occ;
use crate::text::lemma_first_occ;
use crate::text::find_sub;
use crate::text::trim;
use crate::text::trim_v;
use crate::text::split_lines;
use crate::text::split_lines_v;

verus! {

/// Type of a setting field.
pub enum FieldType {
    Text { is_secret: bool, placeholder: &'static str },
    Toggle,
}

/// A setting field displayed by a settings editor.
pub struct SettingField {
    pub key: &'static str,
    pub label: &'static str,
    pub field_type: FieldType,
}

/// First position whose pair carries the key `k`, or -1 when no pair does.
pub open spec fn find_key(s: Seq<(Seq<char>, Seq<char>)>, k: Seq<char>) -> int
    decreases s.len(),
{
    if s.len() == 0 {
        -1
    } else if s[0].0 == k {
        0
    } else {
        let r = find_key(s.skip(1), k);
        if r < 0 {
            -1
        } else {
            r + 1
        }
    }
}

/// The value stored under `k`, if any.
pub open spec fn lookup(s: Seq<(Seq<char>, Seq<char>)>, k: Seq<char>) -> Option<Seq<char>> {
    let i = find_key(s, k);
    if i < 0 {
        None
    } else {
        Some(s[i].1)
    }
}

/// The value stored under `k`, or the empty string.
pub open spec fn value_or_empty(s: Seq<(Seq<char>, Seq<char>)>, k: Seq<char>) -> Seq<char> {
    match lookup(s, k) {
        Some(v) => v,
        None => Seq::empty(),
    }
}

/// Store `v` under `k`: replace the value of the pair that carries `k`, or
/// append a new pair.
pub open spec fn upsert(
    s: Seq<(Seq<char>, Seq<char>)>,
    k: Seq<char>,
    v: Seq<char>,
) -> Seq<(Seq<char>, Seq<char>)> {
    let i = find_key(s, k);
    if i < 0 {
        s.push((k, v))
    } else {
        s.update(i, (k, v))
    }
}

/// No two pairs carry the same key.
pub open spec fn keys_unique(s: Seq<(Seq<char>, Seq<char>)>) -> bool {
    forall|i: int, j: int| 0 <= i < j < s.len() ==> s[i].0 != s[j].0
}

/// `find_key` names the least position carrying the key, and -1 means no
/// pair carries it.
pub proof fn lemma_find_key(s: Seq<(Seq<char>, Seq<char>)>, k: Seq<char>)
    ensures
        -1 <= find_key(s, k) < s.len(),
        find_key(s, k) >= 0 ==> s[find_key(s, k)].0 == k,
        find_key(s, k) >= 0 ==> forall|j: int| 0 <= j < find_key(s, k) ==> s[j].0 != k,
        find_key(s, k) < 0 ==> forall|j: int| 0 <= j < s.len() ==> s[j].0 != k,
    decreases s.len(),
{
    if s.len() > 0 && s[0].0 != k {
        lemma_find_key(s.skip(1), k);
        let r = find_key(s.skip(1), k);
        if r >= 0 {
            assert forall|j: int| 0 <= j < find_key(s, k) implies s[j].0 != k by {
                if j > 0 {
                    assert(s.skip(1)[j - 1] == s[j]);
                    assert(s.skip(1)[j - 1].0 != k);
                }
            }
        } else {
            assert forall|j: int| 0 <= j < s.len() implies s[j].0 != k by {
                if j > 0 {
                    assert(s.skip(1)[j - 1] == s[j]);
                    assert(s.skip(1)[j - 1].0 != k);
                }
            }
        }
    }
}

/// Case-insensitive match of one character against a lowercase letter.
pub open spec fn ci_match(a: char, b: char) -> bool {
    a == b || (65 <= a as int <= 90 && a as int + 32 == b as int)
}

/// Case-insensitive equality against an all-lowercase word.
pub open spec fn eq_ci(a: Seq<char>, b: Seq<char>) -> bool {
    a.len() == b.len() && forall|i: int| 0 <= i < a.len() ==> ci_match(a[i], b[i])
}

/// A value counts as true when it spells `true`, `1` or `yes`, ignoring
/// ASCII case.
pub open spec fn truthy(v: Seq<char>) -> bool {
    eq_ci(v, "true"@) || eq_ci(v, "1"@) || eq_ci(v, "yes"@)
}

/// Case-insensitive comparison of a string against an all-lowercase word.
#[verifier::loop_isolation(false)]
fn eq_ci_exec(a: &str, b: &str) -> (r: bool)
    ensures
        r == eq_ci(a@, b@),
{
    let n = a.unicode_len();
    if n != b.unicode_len() {
        return false;
    }
    let mut i: usize = 0;
    while i < n
        invariant
            0 <= i <= n,
            n == a@.len() == b@.len(),
            forall|k: int| 0 <= k < i ==> ci_match(a@[k], b@[k]),
        decreases n - i,
    {
        let ca = a.get_char(i);
        let cb = b.get_char(i);
        let ok = ca == cb || (ca as u32 >= 65 && ca as u32 <= 90 && ca as u32 + 32 == cb as u32);
        if !ok {
            return false;
        }
        i = i + 1;
    }
    true
}

/// In-memory key-value store backed by a dotenv-style file.
pub struct Settings {
    pub values: Vec<(String, String)>,
    pub env_path: String,
    pub dirty: bool,
}

/// One line of file content parsed as a key-value assignment: the line is
/// neither blank nor a comment and carries an equals sign.
pub open spec fn is_kv_line(line: Seq<char>) -> bool {
    let t = trim_v(line);
    t.len() > 0 && t[0] != '#' && first_occ(t, seq!['=']) >= 0
}

/// The trimmed key of a key-value line.
pub open spec fn line_key(line: Seq<char>) -> Seq<char> {
    let t = trim_v(line);
    trim_v(t.take(first_occ(t, seq!['='])))
}

/// The trimmed value of a key-value line.
pub open spec fn line_value(line: Seq<char>) -> Seq<char> {
    let t = trim_v(line);
    trim_v(t.skip(first_occ(t, seq!['=']) + 1))
}

/// Split a line into its trimmed key and value, when it is a key-value
/// assignment.
pub fn parse_kv(line: &str) -> (r: Option<(String, String)>)
    ensures
        match r {
            Some(kv) => is_kv_line(line@) && kv.0@ == line_key(line@) && kv.1@ == line_value(
                line@,
            ),
            None => !is_kv_line(line@),
        },
{
    proof {
        reveal_strlit("=");
        assert("="@ =~= seq!['=']);
    }
    let t = trim(line);
    let tlen = t.as_str().unicode_len();
    if tlen == 0 {
        return None;
    }
    if t.as_str().get_char(0) == '#' {
        return None;
    }
    match find_sub(t.as_str(), "=") {
        None => None,
        Some(e) => {
            proof {
                lemma_first_occ(t@, seq!['=']);
            }
            let k = trim(t.as_str().substring_char(0, e));
            let v = trim(t.as_str().substring_char(e + 1, tlen));
            proof {
                assert(k@ =~= line_key(line@));
                assert(v@ =~= line_value(line@));
            }
            Some((k, v))
        },
    }
}

/// Store a pair in a table with unique keys: replace in place or append.
#[verifier::loop_isolation(false)]
fn upsert_exec(values: &mut Vec<(String, String)>, k: String, v: String)
    requires
        keys_unique(old(values).deep_view()),
    ensures
        final(values).deep_view() == upsert(old(values).deep_view(), k@, v@),
        keys_unique(final(values).deep_view()),
{
    let ghost vv = values.deep_view();
    proof {
        lemma_find_key(vv, k@);
    }
    let n = values.len();
    let mut i: usize = 0;
    while i < n
        invariant
            0 <= i <= n,
            n == values@.len(),
            *values == *old(values),
            vv == values.deep_view(),
            forall|j: int| 0 <= j < i ==> vv[j].0 != k@,
        decreases n - i,
    {
        if values[i].0 == k {
            proof {
                assert(vv[i as int] == values@[i as int].deep_view());
                assert(vv[i as int].0 == k@);
                assert(find_key(vv, k@) == i);
            }
            values.remove(i);
            values.insert(i, (k, v));
            proof {
                assert(values.deep_view() =~= upsert(vv, k@, v@));
                assert forall|a: int, b: int|
                    0 <= a < b < values.deep_view().len() implies values.deep_view()[a].0
                    != values.deep_view()[b].0 by {
                    assert(vv[a].0 != vv[b].0);
                }
            }
            return ;
        }
        i = i + 1;
    }
    proof {
        assert(find_key(vv, k@) == -1);
    }
    values.push((k, v));
    proof {
        assert(values.deep_view() =~= upsert(vv, k@, v@));
        assert forall|a: int, b: int|
            0 <= a < b < values.deep_view().len() implies values.deep_view()[a].0
            != values.deep_view()[b].0 by {
            if b < vv.len() {
                assert(vv[a].0 != vv[b].0);
            } else {
                assert(vv[a].0 != k@);
            }
        }
    }
}

/// The pairs a file content parses to, later assignments overriding earlier
/// ones.
pub open spec fn parse_line_v(
    acc: Seq<(Seq<char>, Seq<char>)>,
    line: Seq<char>,
) -> Seq<(Seq<char>, Seq<char>)> {
    if is_kv_line(line) {
        upsert(acc, line_key(line), line_value(line))
    } else {
        acc
    }
}

/// Fold the parser over the lines of a file.
pub open spec fn parse_lines_v(lines: Seq<Seq<char>>) -> Seq<(Seq<char>, Seq<char>)>
    decreases lines.len(),
{
    if lines.len() == 0 {
        Seq::empty()
    } else {
        parse_line_v(parse_lines_v(lines.drop_last()), lines.last())
    }
}

/// The pairs a whole file content parses to.
pub open spec fn parse_env_v(content: Seq<char>) -> Seq<(Seq<char>, Seq<char>)> {
    parse_lines_v(split_lines_v(content))
}

/// Parse dotenv-style content into key-value pairs: blank lines and `#`
/// comments are ignored, keys and values are trimmed, and a later assignment
/// to a key overrides an earlier one.
#[verifier::loop_isolation(false)]
pub fn parse_env_file(content: &str) -> (r: Vec<(String, String)>)
    ensures
        r.deep_view() == parse_env_v(content@),
        keys_unique(r.deep_view()),
{
    let lines = split_lines(content);
    let mut r: Vec<(String, String)> = Vec::new();
    let n = lines.len();
    let mut i: usize = 0;
    proof {
        assert(lines.deep_view().take(0) =~= Seq::<Seq<char>>::empty());
    }
    while i < n
        invariant
            0 <= i <= n,
            n == lines@.len(),
            lines.deep_view() == split_lines_v(content@),
            r.deep_view() == parse_lines_v(lines.deep_view().take(i as int)),
            keys_unique(r.deep_view()),
        decreases n - i,
    {
        match parse_kv(lines[i].as_str()) {
            Some(kv) => {
                upsert_exec(&mut r, kv.0, kv.1);
            },
            None => {},
        }
        i = i + 1;
        proof {
            assert(lines.deep_view().take(i as int).drop_last() =~= lines.deep_view().take(
                i - 1,
            ));
            assert(lines.deep_view().take(i as int).last() == lines.deep_view()[i - 1]);
        }
    }
    proof {
        assert(lines.deep_view().take(n as int) =~= lines.deep_view());
    }
    r
}

impl Settings {
    /// The stored table never carries a key twice.
    pub open spec fn wf(&self) -> bool {
        keys_unique(self.values.deep_view())
    }

    /// Build the store from the settings file's location and content; `None`
    /// stands for a file that does not exist.
    pub fn load(env_path: String, content: Option<String>) -> (r: Settings)
        ensures
            r.env_path@ == env_path@,
            !r.dirty,
            r.values.deep_view() == (match content {
                Some(c) => parse_env_v(c@),
                None => Seq::<(Seq<char>, Seq<char>)>::empty(),
            }),
            r.wf(),
    {
        let values = match &content {
            Some(c) => parse_env_file(c.as_str()),
            None => Vec::new(),
        };
        proof {
            if content is None {
                assert(values.deep_view() =~= Seq::<(Seq<char>, Seq<char>)>::empty());
            }
        }
        Settings { values, env_path, dirty: false }
    }

    /// The value stored under `key`, or the empty string.
    #[verifier::loop_isolation(false)]
pub fn get(&self, key: &str) -> (r: &str)
        requires
            self.wf(),
        ensures
            r@ == value_or_empty(self.values.deep_view(), key@),
    {
        let ghost vv = self.values.deep_view();
        proof {
            lemma_find_key(vv, key@);
        }
        let k = String::from_str(key);
        let n = self.values.len();
        let mut i: usize = 0;
        while i < n
            invariant
                0 <= i <= n,
                n == self.values@.len(),
                vv == self.values.deep_view(),
                k@ == key@,
                forall|j: int| 0 <= j < i ==> vv[j].0 != key@,
            decreases n - i,
        {
            if self.values[i].0 == k {
                proof {
                    assert(vv[i as int] == self.values@[i as int].deep_view());
                    assert(vv[i as int].0 == key@);
                    assert(find_key(vv, key@) == i);
                }
                return self.values[i].1.as_str();
            }
            i = i + 1;
        }
        proof {
            reveal_strlit("");
            assert(""@ =~= Seq::<char>::empty());
        }
        ""
    }

    /// Whether the value stored under `key` spells a true value (`true`, `1`
    /// or `yes`, ignoring ASCII case).
    pub fn get_bool(&self, key: &str) -> (r: bool)
        requires
            self.wf(),
        ensures
            r == truthy(value_or_empty(self.values.deep_view(), key@)),
    {
        let v = self.get(key);
        eq_ci_exec(v, "true") || eq_ci_exec(v, "1") || eq_ci_exec(v, "yes")
    }

    /// Store `value` under `key`. The store becomes dirty exactly when the
    /// stored value (or the empty string, for an absent key) actually
    /// changed.
    #[verifier::loop_isolation(false)]
pub fn set(&mut self, key: &str, value: String)
        requires
            old(self).wf(),
        ensures
            final(self).values.deep_view() == (if value_or_empty(
                old(self).values.deep_view(),
                key@,
            ) == value@ {
                old(self).values.deep_view()
            } else {
                upsert(old(self).values.deep_view(), key@, value@)
            }),
            final(self).dirty == (old(self).dirty || value_or_empty(
                old(self).values.deep_view(),
                key@,
            ) != value@),
            final(self).env_path == old(self).env_path,
            final(self).wf(),
    {
        let ghost vv = self.values.deep_view();
        proof {
            lemma_find_key(vv, key@);
        }
        let k = String::from_str(key);
        let n = self.values.len();
        let mut i: usize = 0;
        while i < n
            invariant
                0 <= i <= n,
                n == self.values@.len(),
                *self == *old(self),
                vv == self.values.deep_view(),
                k@ == key@,
                forall|j: int| 0 <= j < i ==> vv[j].0 != key@,
            decreases n - i,
        {
            if self.values[i].0 == k {
                proof {
                    assert(vv[i as int] == self.values@[i as int].deep_view());
                    assert(vv[i as int].0 == key@);
                    assert(find_key(vv, key@) == i);
                }
                if self.values[i].1 == value {
                    return ;
                }
                self.values.remove(i);
                self.values.insert(i, (k, value));
                self.dirty = true;
                proof {
                    assert(self.values.deep_view() =~= upsert(vv, key@, value@));
                    assert forall|a: int, b: int|
                        0 <= a < b < self.values.deep_view().len()
                        implies self.values.deep_view()[a].0 != self.values.deep_view()[b].0 by {
                        assert(vv[a].0 != vv[b].0);
                    }
                }
                return ;
            }
            i = i + 1;
        }
        proof {
            assert(find_key(vv, key@) == -1);
        }
        if !value.as_str().is_empty() {
            self.values.push((k, value));
            self.dirty = true;
            proof {
                assert(self.values.deep_view() =~= upsert(vv, key@, value@));
                assert forall|a: int, b: int|
                    0 <= a < b < self.values.deep_view().len() implies self.values.deep_view()[a].0
                    != self.values.deep_view()[b].0 by {
                    if b < vv.len() {
                        assert(vv[a].0 != vv[b].0);
                    } else {
                        assert(vv[a].0 != key@);
                    }
                }
            }
        } else {
            proof {
                assert(value_or_empty(vv, key@) =~= value@);
            }
        }
    }

    /// Store `true` or `false` under `key`.
    pub fn set_bool(&mut self, key: &str, value: bool)
        requires
            old(self).wf(),
        ensures
            final(self).values.deep_view() == (if value_or_empty(
                old(self).values.deep_view(),
                key@,
            ) == bool_word(value) {
                old(self).values.deep_view()
            } else {
                upsert(old(self).values.deep_view(), key@, bool_word(value))
            }),
            final(self).dirty == (old(self).dirty || value_or_empty(
                old(self).values.deep_view(),
                key@,
            ) != bool_word(value)),
            final(self).env_path == old(self).env_path,
            final(self).wf(),
    {
        let word = if value {
            String::from_str("true")
        } else {
            String::from_str("false")
        };
        self.set(key, word);
    }
}

/// The word stored for a boolean setting.
pub open spec fn bool_word(value: bool) -> Seq<char> {
    if value {
        "true"@
    } else {
        "false"@
    }
}

/// A rendered key-value assignment.
pub open spec fn kv_text(k: Seq<char>, v: Seq<char>) -> Seq<char> {
    k + "="@ + v
}

/// How one original line is rewritten: a key-value line whose key the store
/// knows gets the stored value; every other line is kept as it is.
pub open spec fn render_line_v(line: Seq<char>, pairs: Seq<(Seq<char>, Seq<char>)>) -> Seq<char> {
    if is_kv_line(line) {
        match lookup(pairs, line_key(line)) {
            Some(v) => kv_text(line_key(line), v),
            None => line,
        }
    } else {
        line
    }
}

/// Does some key-value line of the file carry the key `k`?
pub open spec fn written_in(lines: Seq<Seq<char>>, k: Seq<char>) -> bool {
    exists|i: int| 0 <= i < lines.len() && is_kv_line(lines[i]) && line_key(lines[i]) == k
}

/// The assignments appended for keys the file does not carry: stored pairs
/// with a non-empty value and no key-value line of their own, in store order.
pub open spec fn appended_v(
    lines: Seq<Seq<char>>,
    pairs: Seq<(Seq<char>, Seq<char>)>,
) -> Seq<Seq<char>>
    decreases pairs.len(),
{
    if pairs.len() == 0 {
        Seq::empty()
    } else {
        let rest = appended_v(lines, pairs.drop_last());
        let p = pairs.last();
        if p.1.len() > 0 && !written_in(lines, p.0) {
            rest + seq![kv_text(p.0, p.1)]
        } else {
            rest
        }
    }
}

/// The whole rendered file: each original line rewritten, then the new
/// assignments appended.
pub open spec fn render_env_v(
    lines: Seq<Seq<char>>,
    pairs: Seq<(Seq<char>, Seq<char>)>,
) -> Seq<Seq<char>> {
    lines.map_values(|l: Seq<char>| render_line_v(l, pairs)) + appended_v(lines, pairs)
}

/// Scan the file's lines for a key-value line carrying `k`.
#[verifier::loop_isolation(false)]
fn key_written(lines: &Vec<String>, k: &String) -> (r: bool)
    ensures
        r == written_in(lines.deep_view(), k@),
{
    let n = lines.len();
    let mut i: usize = 0;
    while i < n
        invariant
            0 <= i <= n,
            forall|j: int|
                0 <= j < i ==> !(is_kv_line(lines.deep_view()[j]) && line_key(
                    lines.deep_view()[j],
                ) == k@),
        decreases n - i,
    {
        match parse_kv(lines[i].as_str()) {
            Some(kv) => {
                if kv.0 == *k {
                    proof {
                        assert(is_kv_line(lines.deep_view()[i as int]) && line_key(
                            lines.deep_view()[i as int],
                        ) == k@);
                    }
                    return true;
                }
            },
            None => {},
        }
        i = i + 1;
    }
    false
}

impl Settings {
    /// The pair carrying `key`, if the store has one. Unlike
    /// [`Settings::get`], this tells an absent key apart from an empty value.
    #[verifier::loop_isolation(false)]
    fn find_value(&self, key: &String) -> (r: Option<&String>)
        requires
            self.wf(),
        ensures
            match r {
                Some(v) => lookup(self.values.deep_view(), key@) == Some(v@),
                None => lookup(self.values.deep_view(), key@) is None,
            },
    {
        let ghost vv = self.values.deep_view();
        proof {
            lemma_find_key(vv, key@);
        }
        let n = self.values.len();
        let mut i: usize = 0;
        while i < n
            invariant
                0 <= i <= n,
                n == self.values@.len(),
                forall|j: int| 0 <= j < i ==> vv[j].0 != key@,
            decreases n - i,
        {
            if self.values[i].0 == *key {
                proof {
                    assert(vv[i as int] == self.values@[i as int].deep_view());
                    assert(vv[i as int].0 == key@);
                    assert(find_key(vv, key@) == i);
                }
                return Some(&self.values[i].1);
            }
            i = i + 1;
        }
        None
    }

    /// Render the settings back over the file's original lines: comments,
    /// blank lines and unknown assignments are kept as they are, an
    /// assignment whose key the store knows is rewritten with the stored
    /// value, and stored keys the file does not carry are appended (when
    /// their value is non-empty), in store order.
    #[verifier::loop_isolation(false)]
    pub fn render_env(&self, original_lines: &Vec<String>) -> (r: Vec<String>)
        requires
            self.wf(),
        ensures
            r.deep_view() == render_env_v(original_lines.deep_view(), self.values.deep_view()),
    {
        let ghost ldv = original_lines.deep_view();
        let ghost pv = self.values.deep_view();
        let mut r: Vec<String> = Vec::new();
        let n = original_lines.len();
        let mut i: usize = 0;
        proof {
            assert(r.deep_view() =~= ldv.take(0).map_values(
                |l: Seq<char>| render_line_v(l, pv),
            ));
        }
        while i < n
            invariant
                0 <= i <= n,
                n == original_lines@.len(),
                r.deep_view() =~= ldv.take(i as int).map_values(
                    |l: Seq<char>| render_line_v(l, pv),
                ),
            decreases n - i,
        {
            let ghost r_prev = r.deep_view();
            match parse_kv(original_lines[i].as_str()) {
                Some(kv) => {
                    match self.find_value(&kv.0) {
                        Some(v) => {
                            let mut s = kv.0;
                            s.append("=");
                            s.append(v.as_str());
                            proof {
                                reveal_strlit("=");
                                assert(s@ =~= kv_text(line_key(ldv[i as int]), v@));
                            }
                            r.push(s);
                        },
                        None => {
                            r.push(original_lines[i].clone());
                        },
                    }
                },
                None => {
                    r.push(original_lines[i].clone());
                },
            }
            i = i + 1;
            proof {
                assert(r.deep_view() =~= r_prev.push(render_line_v(ldv[i - 1], pv)));
                assert(r.deep_view() =~= ldv.take(i as int).map_values(
                    |l: Seq<char>| render_line_v(l, pv),
                ));
            }
        }
        proof {
            assert(ldv.take(n as int) =~= ldv);
        }
        let ghost rendered = r.deep_view();
        let m = self.values.len();
        let mut j: usize = 0;
        proof {
            assert(pv.take(0) =~= Seq::<(Seq<char>, Seq<char>)>::empty());
            assert(r.deep_view() =~= rendered + appended_v(ldv, pv.take(0)));
        }
        while j < m
            invariant
                0 <= j <= m,
                m == self.values@.len(),
                r.deep_view() =~= rendered + appended_v(ldv, pv.take(j as int)),
            decreases m - j,
        {
            let ghost r_prev = r.deep_view();
            if !self.values[j].1.as_str().is_empty() {
                if !key_written(original_lines, &self.values[j].0) {
                    let mut s = self.values[j].0.clone();
                    s.append("=");
                    s.append(self.values[j].1.as_str());
                    proof {
                        reveal_strlit("=");
                        assert(s@ =~= kv_text(pv[j as int].0, pv[j as int].1));
                    }
                    r.push(s);
                }
            }
            j = j + 1;
            proof {
                assert(pv.take(j as int).drop_last() =~= pv.take(j - 1));
                assert(pv.take(j as int).last() == pv[j - 1]);
                assert(pv[j - 1] == self.values@[j - 1].deep_view());
                if pv[j - 1].1.len() > 0 && !written_in(ldv, pv[j - 1].0) {
                    assert(r.deep_view() =~= r_prev.push(kv_text(pv[j - 1].0, pv[j - 1].1)));
                    assert(appended_v(ldv, pv.take(j as int)) =~= appended_v(
                        ldv,
                        pv.take(j - 1),
                    ) + seq![kv_text(pv[j - 1].0, pv[j - 1].1)]);
                }
                assert(r.deep_view() =~= rendered + appended_v(ldv, pv.take(j as int)));
            }
        }
        proof {
            assert(pv.take(m as int) =~= pv);
            assert(r.deep_view() =~= render_env_v(ldv, pv));
        }
        r
    }
}

} // verus!
