//! The project's persisted configuration: `KEY=VALUE` lines, one of which
//! names the target chip.
use vstd::prelude::*;
use crate::text::{
    chars_of, find_char, line_at, lines, lines_from, opt_view, string_from_chars, trim,
    trim_range, CharClass,
};

verus! {

/// The order of keys in a written configuration: character by character,
/// a proper prefix first (the order of `str`'s `Ord`).
pub open spec fn key_lt(a: Seq<char>, b: Seq<char>) -> bool
    decreases a.len(),
{
    if a.len() == 0 {
        b.len() > 0
    } else if b.len() == 0 {
        false
    } else if a[0] != b[0] {
        a[0] < b[0]
    } else {
        key_lt(a.drop_first(), b.drop_first())
    }
}

proof fn lemma_key_lt_total(a: Seq<char>, b: Seq<char>)
    requires
        !key_lt(a, b),
        a != b,
    ensures
        key_lt(b, a),
    decreases a.len(),
{
    if a.len() == 0 {
        assert(a =~= b);
    } else if b.len() == 0 {
    } else if a[0] != b[0] {
    } else {
        if a.drop_first() == b.drop_first() {
            assert(a.drop_first().len() == b.drop_first().len());
            assert(a =~= b) by {
                assert forall|i: int| 0 <= i < a.len() implies a[i] == b[i] by {
                    if i > 0 {
                        assert(a[i] == a.drop_first()[i - 1]);
                        assert(b[i] == b.drop_first()[i - 1]);
                    }
                }
            }
        }
        lemma_key_lt_total(a.drop_first(), b.drop_first());
    }
}

/// Settings as plain values, in the order they are stored.
pub open spec fn settings_view(v: Seq<(String, String)>) -> Seq<(Seq<char>, Seq<char>)> {
    v.map_values(|p: (String, String)| (p.0@, p.1@))
}

/// Each key once, and each key before the next in key order.
pub open spec fn wf_entries(e: Seq<(Seq<char>, Seq<char>)>) -> bool {
    &&& forall|i: int, j: int| 0 <= i < j < e.len() ==> e[i].0 != e[j].0
    &&& forall|i: int| 0 <= i < e.len() - 1 ==> key_lt(#[trigger] e[i].0, e[i + 1].0)
}

/// Whether `k` is the key of one of `e`.
pub open spec fn has_key(e: Seq<(Seq<char>, Seq<char>)>, k: Seq<char>) -> bool {
    exists|i: int| 0 <= i < e.len() && #[trigger] e[i].0 == k
}

/// The settings as a map from key to value.
pub open spec fn entries_map(e: Seq<(Seq<char>, Seq<char>)>) -> Map<Seq<char>, Seq<char>> {
    Map::new(
        |k: Seq<char>| has_key(e, k),
        |k: Seq<char>| e[choose|i: int| 0 <= i < e.len() && #[trigger] e[i].0 == k].1,
    )
}

proof fn lemma_map_of_update(e: Seq<(Seq<char>, Seq<char>)>, i: int, v: Seq<char>)
    requires
        wf_entries(e),
        0 <= i < e.len(),
    ensures
        wf_entries(e.update(i, (e[i].0, v))),
        entries_map(e.update(i, (e[i].0, v))) == entries_map(e).insert(e[i].0, v),
{
    let k = e[i].0;
    let e2 = e.update(i, (k, v));
    assert forall|x: Seq<char>| has_key(e2, x) == (has_key(e, x) || x == k) by {
        if has_key(e, x) {
            let j = choose|j: int| 0 <= j < e.len() && #[trigger] e[j].0 == x;
            assert(e2[j].0 == x);
        }
        if has_key(e2, x) {
            let j = choose|j: int| 0 <= j < e2.len() && #[trigger] e2[j].0 == x;
            assert(e[j].0 == x);
        }
        if x == k {
            assert(e2[i].0 == x);
        }
    }
    assert forall|x: Seq<char>| #[trigger] has_key(e2, x) implies entries_map(e2)[x]
        == entries_map(e).insert(k, v)[x] by {
        let j2 = choose|j: int| 0 <= j < e2.len() && #[trigger] e2[j].0 == x;
        if x != k {
            let j1 = choose|j: int| 0 <= j < e.len() && #[trigger] e[j].0 == x;
            assert(e[j2].0 == x);
            assert(j1 == j2);
        } else {
            assert(j2 == i);
        }
    }
    assert(entries_map(e2) =~= entries_map(e).insert(k, v));
}

proof fn lemma_map_of_insert(e: Seq<(Seq<char>, Seq<char>)>, j: int, k: Seq<char>, v: Seq<char>)
    requires
        wf_entries(e),
        0 <= j <= e.len(),
        !has_key(e, k),
        forall|m: int| 0 <= m < j ==> key_lt(#[trigger] e[m].0, k),
        j < e.len() ==> !key_lt(e[j].0, k),
    ensures
        wf_entries(e.insert(j, (k, v))),
        entries_map(e.insert(j, (k, v))) == entries_map(e).insert(k, v),
{
    let e2 = e.insert(j, (k, v));
    assert forall|a: int, b: int| 0 <= a < b < e2.len() implies e2[a].0 != e2[b].0 by {
        if a == j {
            assert(e2[b].0 == e[b - 1].0);
        } else if b == j {
            assert(e2[a].0 == e[a].0);
        }
    }
    if j < e.len() {
        assert(e[j].0 != k);
        lemma_key_lt_total(e[j].0, k);
    }
    assert forall|m: int| 0 <= m < e2.len() - 1 implies key_lt(#[trigger] e2[m].0, e2[m + 1].0) by {
        if m < j - 1 {
            assert(key_lt(e[m].0, e[m + 1].0));
        } else if m == j - 1 {
        } else if m == j {
        } else {
            assert(key_lt(e[m - 1].0, e[m].0));
        }
    }
    assert forall|x: Seq<char>| has_key(e2, x) == (has_key(e, x) || x == k) by {
        if has_key(e, x) {
            let m = choose|m: int| 0 <= m < e.len() && #[trigger] e[m].0 == x;
            if m < j {
                assert(e2[m].0 == x);
            } else {
                assert(e2[m + 1].0 == x);
            }
        }
        if has_key(e2, x) && x != k {
            let m = choose|m: int| 0 <= m < e2.len() && #[trigger] e2[m].0 == x;
            if m < j {
                assert(e[m].0 == x);
            } else {
                assert(e[m - 1].0 == x);
            }
        }
        if x == k {
            assert(e2[j].0 == x);
        }
    }
    assert forall|x: Seq<char>| #[trigger] has_key(e2, x) implies entries_map(e2)[x]
        == entries_map(e).insert(k, v)[x] by {
        let m2 = choose|m: int| 0 <= m < e2.len() && #[trigger] e2[m].0 == x;
        if x != k {
            let m1 = choose|m: int| 0 <= m < e.len() && #[trigger] e[m].0 == x;
            if m2 < j {
                assert(e[m2].0 == x);
                assert(m1 == m2);
            } else {
                assert(m2 != j);
                assert(e[m2 - 1].0 == x);
                assert(m1 == m2 - 1);
            }
        } else {
            assert(m2 == j);
        }
    }
    assert(entries_map(e2) =~= entries_map(e).insert(k, v));
}

/// Whether `a` comes before `b` in key order.
fn key_less(a: &Vec<char>, b: &Vec<char>) -> (r: bool)
    ensures
        r == key_lt(a@, b@),
{
    let mut i: usize = 0;
    assert(a@.skip(0) =~= a@);
    assert(b@.skip(0) =~= b@);
    while i < a.len() && i < b.len() && a[i] == b[i]
        invariant
            i <= a@.len(),
            i <= b@.len(),
            key_lt(a@, b@) == key_lt(a@.skip(i as int), b@.skip(i as int)),
        decreases a@.len() - i,
    {
        assert(a@.skip(i as int).drop_first() =~= a@.skip(i + 1));
        assert(b@.skip(i as int).drop_first() =~= b@.skip(i + 1));
        i += 1;
    }
    if i == a.len() {
        i < b.len()
    } else if i == b.len() {
        false
    } else {
        a[i] < b[i]
    }
}

/// Sets `key` to `value`, keeping the keys unique and in order.
fn insert_setting(settings: &mut Vec<(String, String)>, key: String, value: String)
    requires
        wf_entries(settings_view(old(settings)@)),
    ensures
        wf_entries(settings_view(final(settings)@)),
        entries_map(settings_view(final(settings)@)) == entries_map(
            settings_view(old(settings)@),
        ).insert(key@, value@),
{
    let ghost e = settings_view(settings@);
    let mut i: usize = 0;
    while i < settings.len()
        invariant
            i <= settings@.len(),
            e == settings_view(settings@),
            e == settings_view(old(settings)@),
            wf_entries(e),
            forall|m: int| 0 <= m < i ==> #[trigger] e[m].0 != key@,
        decreases settings@.len() - i,
    {
        if settings[i].0 == key {
            assert(e[i as int].0 == key@);
            proof {
                lemma_map_of_update(e, i as int, value@);
            }
            let ghost kv = (key@, value@);
            settings.set(i, (key, value));
            assert(settings_view(settings@) =~= e.update(i as int, kv));
            return;
        }
        i += 1;
    }
    assert(!has_key(e, key@));
    let kc = chars_of(key.as_str());
    let mut j: usize = 0;
    while j < settings.len() && key_less(&chars_of(settings[j].0.as_str()), &kc)
        invariant
            j <= settings@.len(),
            e == settings_view(settings@),
            e == settings_view(old(settings)@),
            wf_entries(e),
            kc@ == key@,
            forall|m: int| 0 <= m < j ==> key_lt(#[trigger] e[m].0, key@),
        decreases settings@.len() - j,
    {
        j += 1;
    }
    proof {
        lemma_map_of_insert(e, j as int, key@, value@);
    }
    let ghost kv = (key@, value@);
    settings.insert(j, (key, value));
    assert(settings_view(settings@) =~= e.insert(j as int, kv));
}

/// The key that names the target chip.
pub open spec fn target_key() -> Seq<char> {
    "CONFIG_IDF_TARGET"@
}

/// A configuration as plain values.
pub struct ConfigModel {
    pub target: Option<Seq<char>>,
    pub settings: Map<Seq<char>, Seq<char>>,
}

/// The effect of one line: blank lines, comments ('#' first) and lines
/// without '=' change nothing; otherwise the text before the first '=' is
/// the key and the rest the value, both trimmed, and a later line with the
/// same key wins. The target key also sets the target, without its quotes.
pub open spec fn apply_line(acc: ConfigModel, line: Seq<char>) -> ConfigModel {
    let t = trim(line, CharClass::Whitespace);
    if t.len() == 0 || t[0] == '#' || !t.contains('=') {
        acc
    } else {
        let p = t.index_of_first('=')->Some_0;
        let key = trim(t.take(p), CharClass::Whitespace);
        let value = trim(t.skip(p + 1), CharClass::Whitespace);
        ConfigModel {
            target: if key == target_key() {
                Some(trim(value, CharClass::Quote))
            } else {
                acc.target
            },
            settings: acc.settings.insert(key, value),
        }
    }
}

/// The configuration that `ls` describe, line by line.
pub open spec fn parse_lines(ls: Seq<Seq<char>>) -> ConfigModel
    decreases ls.len(),
{
    if ls.len() == 0 {
        ConfigModel { target: None, settings: Map::empty() }
    } else {
        apply_line(parse_lines(ls.drop_last()), ls.last())
    }
}

/// The configuration that a file's text describes.
pub open spec fn parsed_config(text: Seq<char>) -> ConfigModel {
    parse_lines(lines(text))
}

/// The first line of a written configuration.
pub open spec fn header() -> Seq<char> {
    "# ESP-IDF Configuration"@
}

/// One line per setting, each after a line feed.
pub open spec fn entry_lines(e: Seq<(Seq<char>, Seq<char>)>) -> Seq<char>
    decreases e.len(),
{
    if e.len() == 0 {
        seq![]
    } else {
        entry_lines(e.drop_last()) + "\n"@ + e.last().0 + "="@ + e.last().1
    }
}

/// The text of a configuration: the header, an empty line, then the
/// settings in key order.
pub open spec fn config_text(e: Seq<(Seq<char>, Seq<char>)>) -> Seq<char> {
    header() + "\n"@ + entry_lines(e)
}

/// A project's configuration: the target chip, and all settings kept in
/// key order.
#[derive(Debug)]
pub struct SdkConfig {
    pub target: Option<String>,
    pub settings: Vec<(String, String)>,
}

impl SdkConfig {
    /// The settings, in the order they are stored.
    pub open spec fn entries(&self) -> Seq<(Seq<char>, Seq<char>)> {
        settings_view(self.settings@)
    }

    /// The settings as a map.
    pub open spec fn settings_map(&self) -> Map<Seq<char>, Seq<char>> {
        entries_map(self.entries())
    }

    /// The target chip.
    pub open spec fn target_view(&self) -> Option<Seq<char>> {
        opt_view(self.target)
    }

    /// Each key once, in key order.
    pub open spec fn wf(&self) -> bool {
        wf_entries(self.entries())
    }

    /// Reads a configuration file's text. Every line is read as
    /// `apply_line` says; nothing in it is an error.
    pub fn parse_sdkconfig(content: &str) -> (r: SdkConfig)
        ensures
            r.wf(),
            r.target_view() == parsed_config(content@).target,
            r.settings_map() == parsed_config(content@).settings,
    {
        let cs = chars_of(content);
        let target_name = String::from_str("CONFIG_IDF_TARGET");
        let mut settings: Vec<(String, String)> = Vec::new();
        let mut target: Option<String> = None;
        let ghost mut done: Seq<Seq<char>> = seq![];
        assert(entries_map(settings_view(settings@)) =~= Map::empty());
        let mut pos: usize = 0;
        while pos < cs.len()
            invariant
                pos <= cs@.len(),
                cs@ == content@,
                target_name@ == target_key(),
                done + lines_from(cs@, pos as int) == lines(cs@),
                wf_entries(settings_view(settings@)),
                opt_view(target) == parse_lines(done).target,
                entries_map(settings_view(settings@)) == parse_lines(done).settings,
            decreases cs@.len() - pos,
        {
            let (body_end, next) = line_at(&cs, pos);
            let ghost line = cs@.subrange(pos as int, body_end as int);
            let ghost t = trim(line, CharClass::Whitespace);
            assert(done.push(line).drop_last() =~= done);
            assert(done.push(line) + lines_from(cs@, next as int) =~= done + lines_from(
                cs@,
                pos as int,
            ));
            let (ta, tb) = trim_range(&cs, pos, body_end, CharClass::Whitespace);
            assert(t =~= cs@.subrange(ta as int, tb as int));
            if ta < tb && cs[ta] != '#' {
                let p = find_char(&cs, ta, tb, '=');
                proof {
                    t.index_of_first_ensures('=');
                    if p < tb {
                        assert(t[p - ta] == '=');
                    }
                    if t.contains('=') {
                        let k = t.index_of_first('=')->Some_0;
                        assert(cs@[ta + k] == '=');
                    }
                }
                if p < tb {
                    let ghost k = t.index_of_first('=')->Some_0;
                    assert(k == p - ta) by {
                        if k < p - ta {
                            assert(cs@[ta + k] == '=');
                        }
                        if k > p - ta {
                            assert(t[p - ta] == '=');
                        }
                    }
                    let (ka, kb) = trim_range(&cs, ta, p, CharClass::Whitespace);
                    let (va, vb) = trim_range(&cs, p + 1, tb, CharClass::Whitespace);
                    assert(t.take(k) =~= cs@.subrange(ta as int, p as int));
                    assert(t.skip(k + 1) =~= cs@.subrange(p + 1, tb as int));
                    let key = string_from_chars(&cs, ka, kb);
                    let value = string_from_chars(&cs, va, vb);
                    if key == target_name {
                        let (qa, qb) = trim_range(&cs, va, vb, CharClass::Quote);
                        target = Some(string_from_chars(&cs, qa, qb));
                    }
                    insert_setting(&mut settings, key, value);
                }
            }
            proof {
                done = done.push(line);
            }
            pos = next;
        }
        assert(lines_from(cs@, pos as int) =~= seq![]);
        assert(done + seq![] =~= done);
        SdkConfig { target, settings }
    }

    /// The text to store this configuration under.
    pub fn to_sdkconfig_format(&self) -> (r: String)
        ensures
            r@ == config_text(self.entries()),
    {
        let mut r = String::from_str("# ESP-IDF Configuration");
        r.append("\n");
        let mut i: usize = 0;
        while i < self.settings.len()
            invariant
                i <= self.settings@.len(),
                r@ == header() + "\n"@ + entry_lines(self.entries().take(i as int)),
            decreases self.settings@.len() - i,
        {
            let ghost before = r@;
            r.append("\n");
            r.append(self.settings[i].0.as_str());
            r.append("=");
            r.append(self.settings[i].1.as_str());
            assert(self.entries().take(i + 1).drop_last() =~= self.entries().take(i as int));
            assert(r@ =~= before + "\n"@ + self.entries()[i as int].0 + "="@ + self.entries()[i as int].1);
            i += 1;
        }
        assert(self.entries().take(i as int) =~= self.entries());
        r
    }

    /// Sets the target chip, and the target key to the chip's name in quotes.
    pub fn set_target(&mut self, target: &str)
        requires
            old(self).wf(),
        ensures
            final(self).wf(),
            final(self).target_view() == Some(target@),
            final(self).settings_map() == old(self).settings_map().insert(
                target_key(),
                seq!['"'] + target@ + seq!['"'],
            ),
    {
        self.target = Some(String::from_str(target));
        let mut quoted = String::from_str("\"");
        quoted.append(target);
        quoted.append("\"");
        proof {
            reveal_strlit("\"");
        }
        assert(quoted@ =~= seq!['"'] + target@ + seq!['"']);
        insert_setting(&mut self.settings, String::from_str("CONFIG_IDF_TARGET"), quoted);
    }

    /// The target chip, if one is set.
    pub fn get_target(&self) -> (r: Option<&String>)
        ensures
            match r {
                Some(t) => self.target_view() == Some(t@),
                None => self.target_view() is None,
            },
    {
        self.target.as_ref()
    }

    /// The value of setting `key`, if it is set.
    pub fn setting(&self, key: &str) -> (r: Option<String>)
        requires
            self.wf(),
        ensures
            opt_view(r) == (if self.settings_map().contains_key(key@) {
                Some(self.settings_map()[key@])
            } else {
                None
            }),
    {
        let k = String::from_str(key);
        let mut i: usize = 0;
        while i < self.settings.len()
            invariant
                i <= self.settings@.len(),
                k@ == key@,
                self.wf(),
                forall|m: int| 0 <= m < i ==> #[trigger] self.entries()[m].0 != key@,
            decreases self.settings@.len() - i,
        {
            if self.settings[i].0 == k {
                assert(self.entries()[i as int].0 == key@);
                let ghost j = choose|j: int|
                    0 <= j < self.entries().len() && #[trigger] self.entries()[j].0 == key@;
                assert(j == i) by {
                    if j < i {
                        assert(self.entries()[j].0 != key@);
                    }
                }
                return Some(self.settings[i].1.clone());
            }
            i += 1;
        }
        None
    }
}

/// The configuration of a project from the text of its configuration file,
/// or an empty one when the project has no such file.
pub fn load_project_config(existing: Option<&str>) -> (r: SdkConfig)
    ensures
        r.wf(),
        match existing {
            Some(text) => r.target_view() == parsed_config(text@).target && r.settings_map()
                == parsed_config(text@).settings,
            None => r.target_view() is None && r.settings_map() == Map::<
                Seq<char>,
                Seq<char>,
            >::empty(),
        },
{
    match existing {
        Some(text) => SdkConfig::parse_sdkconfig(text),
        None => {
            let r = SdkConfig { target: None, settings: Vec::new() };
            assert(r.settings_map() =~= Map::empty());
            r
        },
    }
}

} // verus!
