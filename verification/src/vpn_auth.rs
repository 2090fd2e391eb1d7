//! NetworkManager VPN plugin "auth-dialog" helper support: reading plugin `.name`
//! files, building the helper's command line, and the helper's stdin/stdout wire
//! format.
use vstd::prelude::*;

use crate::enums::{plugin_short_name, plugin_short_name_of};
use crate::model::{lowercase, lowercase_chars, sorted_by, stable_permutation_by, stable_sort_by_keys, key_view};
use crate::text::{
    chars_eq, chars_eq_str, chars_of, lines, lines_of, push_all, push_str, slice_chars, string_from,
    string_views, trim, trim_chars, vec_views,
};

verus! {

/// The service type whose plugin ships the auth-dialog helper used for interactive
/// logins (OpenConnect covers AnyConnect / GlobalProtect / F5 / Fortinet / Juniper /
/// Array).
pub const OPENCONNECT_SERVICE: &'static str = "org.freedesktop.NetworkManager.openconnect";

/// Whether this service-type should be handled via its auth-dialog helper rather than
/// the applet's built-in password field.
pub fn uses_auth_dialog(service_type: &str) -> (r: bool)
    ensures
        r == (service_type@ == OPENCONNECT_SERVICE@),
{
    let s = chars_of(service_type);
    chars_eq_str(&s, OPENCONNECT_SERVICE)
}

/// The system directories that hold VPN plugin `.name` files, in priority order.
pub open spec fn default_plugin_dirs() -> Seq<Seq<char>> {
    seq![
        "/run/current-system/sw/lib/NetworkManager/VPN"@,
        "/usr/lib/NetworkManager/VPN"@,
        "/usr/lib/x86_64-linux-gnu/NetworkManager/VPN"@,
        "/etc/NetworkManager/VPN"@,
    ]
}

/// Directories scanned for VPN plugin `.name` files, in priority order: the one that
/// `$NM_VPN_PLUGIN_DIR` names (`override_dir`), when set and not empty, else the
/// system locations.
pub fn plugin_dirs(override_dir: Option<String>) -> (r: Vec<String>)
    ensures
        string_views(r@) == (match override_dir {
            Some(d) => if d@.len() > 0 {
                seq![d@]
            } else {
                default_plugin_dirs()
            },
            None => default_plugin_dirs(),
        }),
{
    let mut dirs: Vec<String> = Vec::new();
    match override_dir {
        Some(d) => {
            if !d.as_str().is_empty() {
                let ghost dv = d@;
                dirs.push(d);
                assert(string_views(dirs@) =~= seq![dv]);
                return dirs;
            }
        },
        None => {},
    }
    dirs.push(owned("/run/current-system/sw/lib/NetworkManager/VPN"));
    dirs.push(owned("/usr/lib/NetworkManager/VPN"));
    dirs.push(owned("/usr/lib/x86_64-linux-gnu/NetworkManager/VPN"));
    dirs.push(owned("/etc/NetworkManager/VPN"));
    assert(string_views(dirs@) =~= default_plugin_dirs());
    dirs
}

/// The index of the first `c` in `s`, or `s.len()` when there is none.
pub open spec fn index_of(s: Seq<char>, c: char) -> nat
    decreases s.len(),
{
    if s.len() == 0 {
        0
    } else if s[0] == c {
        0
    } else {
        1 + index_of(s.drop_first(), c)
    }
}

/// What one trimmed line of an INI / GKeyFile is.
pub enum IniLine {
    /// `[name]`: starts a section.
    Header(Seq<char>),
    /// `key=value`, both trimmed, split at the first `'='`.
    Pair(Seq<char>, Seq<char>),
    /// Anything else.
    Other,
}

/// Classifies a line: a section header when the trimmed line starts with `'['` and the
/// rest ends with `']'`; else a pair when it holds a `'='`; else nothing.
pub open spec fn ini_line(line: Seq<char>) -> IniLine {
    let t = trim(line);
    if t.len() >= 2 && t[0] == '[' && t.last() == ']' {
        IniLine::Header(t.subrange(1, t.len() - 1))
    } else if index_of(t, '=') < t.len() {
        IniLine::Pair(trim(t.take(index_of(t, '=') as int)), trim(t.skip((index_of(t, '=') + 1) as int)))
    } else {
        IniLine::Other
    }
}

/// The executable form of [`IniLine`].
pub enum IniEntry {
    /// `[name]`.
    Header(Vec<char>),
    /// `key=value`.
    Pair(Vec<char>, Vec<char>),
    /// Anything else.
    Other,
}

/// The view of an [`IniEntry`].
pub open spec fn ini_entry_view(e: IniEntry) -> IniLine {
    match e {
        IniEntry::Header(n) => IniLine::Header(n@),
        IniEntry::Pair(k, v) => IniLine::Pair(k@, v@),
        IniEntry::Other => IniLine::Other,
    }
}

proof fn lemma_index_of_bound(s: Seq<char>, c: char)
    ensures
        index_of(s, c) <= s.len(),
        index_of(s, c) < s.len() ==> s[index_of(s, c) as int] == c,
        forall|j: int| 0 <= j < index_of(s, c) ==> s[j] != c,
    decreases s.len(),
{
    if s.len() > 0 && s[0] != c {
        lemma_index_of_bound(s.drop_first(), c);
        assert forall|j: int| 0 <= j < index_of(s, c) implies s[j] != c by {
            if j > 0 {
                assert(s[j] == s.drop_first()[j - 1]);
            }
        }
    }
}

/// The index of the first `c` in `s`, or its length.
fn index_of_exec(s: &Vec<char>, c: char) -> (r: usize)
    ensures
        r == index_of(s@, c),
{
    let mut i: usize = 0;
    assert(s@.skip(0) =~= s@);
    while i < s.len() && s[i] != c
        invariant
            i <= s@.len(),
            index_of(s@, c) == i + index_of(s@.skip(i as int), c),
        decreases s.len() - i,
    {
        assert(s@.skip(i as int).drop_first() =~= s@.skip(i + 1));
        i += 1;
    }
    i
}

/// Classifies one line of an INI / GKeyFile.
pub fn classify_ini_line(line: &Vec<char>) -> (r: IniEntry)
    ensures
        ini_entry_view(r) == ini_line(line@),
{
    let t = trim_chars(line);
    let n = t.len();
    if n >= 2 && t[0] == '[' && t[n - 1] == ']' {
        return IniEntry::Header(slice_chars(&t, 1, n - 1));
    }
    let i = index_of_exec(&t, '=');
    if i < n {
        let k = trim_chars(&slice_chars(&t, 0, i));
        let v = trim_chars(&slice_chars(&t, i + 1, n));
        assert(t@.subrange(0, i as int) =~= t@.take(i as int));
        assert(t@.subrange(i + 1, n as int) =~= t@.skip(i + 1));
        IniEntry::Pair(k, v)
    } else {
        IniEntry::Other
    }
}

/// The state while reading a `.name` file: the current section and the two values
/// looked for.
pub type NameFileState = (Seq<char>, Option<Seq<char>>, Option<Seq<char>>);

/// One line of a `.name` file: headers switch section; `[VPN Connection] service` and
/// `[GNOME] auth-dialog` record their value (a later one replaces an earlier one).
pub open spec fn name_file_step(st: NameFileState, line: Seq<char>) -> NameFileState {
    match ini_line(line) {
        IniLine::Header(name) => (name, st.1, st.2),
        IniLine::Pair(key, value) => if st.0 == "VPN Connection"@ && key == "service"@ {
            (st.0, Some(value), st.2)
        } else if st.0 == "GNOME"@ && key == "auth-dialog"@ {
            (st.0, st.1, Some(value))
        } else {
            st
        },
        IniLine::Other => st,
    }
}

/// The state after reading `ls` from the start of a file.
pub open spec fn name_file_fold(ls: Seq<Seq<char>>) -> NameFileState
    decreases ls.len(),
{
    if ls.len() == 0 {
        (Seq::empty(), None, None)
    } else {
        name_file_step(name_file_fold(ls.drop_last()), ls.last())
    }
}

/// The view of an optional string.
pub open spec fn opt_string_view(o: Option<String>) -> Option<Seq<char>> {
    match o {
        Some(s) => Some(s@),
        None => None,
    }
}

/// The view of an optional character vector.
pub open spec fn opt_chars_view(o: Option<Vec<char>>) -> Option<Seq<char>> {
    match o {
        Some(s) => Some(s@),
        None => None,
    }
}

fn opt_to_string(o: Option<Vec<char>>) -> (r: Option<String>)
    ensures
        opt_string_view(r) == opt_chars_view(o),
{
    match o {
        Some(v) => Some(string_from(&v)),
        None => None,
    }
}

/// Parse a plugin `.name` file (INI/GKeyFile), extracting `[VPN Connection] service`
/// and `[GNOME] auth-dialog` (the helper's path). Other keys are ignored.
pub fn parse_name_file(content: &str) -> (r: (Option<String>, Option<String>))
    ensures
        opt_string_view(r.0) == name_file_fold(lines(content@)).1,
        opt_string_view(r.1) == name_file_fold(lines(content@)).2,
{
    let chars = chars_of(content);
    let all = lines_of(&chars);
    let mut section: Vec<char> = Vec::new();
    let mut service: Option<Vec<char>> = None;
    let mut auth_dialog: Option<Vec<char>> = None;
    let mut i: usize = 0;
    let ghost ls = lines(content@);
    while i < all.len()
        invariant
            i <= all@.len(),
            vec_views(all@) == ls,
            name_file_fold(ls.take(i as int)) == (
                section@,
                opt_chars_view(service),
                opt_chars_view(auth_dialog),
            ),
        decreases all.len() - i,
    {
        assert(ls.take(i + 1).drop_last() =~= ls.take(i as int));
        assert(all@[i as int]@ == ls[i as int]);
        match classify_ini_line(&all[i]) {
            IniEntry::Header(name) => {
                section = name;
            },
            IniEntry::Pair(key, value) => {
                if chars_eq_str(&section, "VPN Connection") && chars_eq_str(&key, "service") {
                    service = Some(value);
                } else if chars_eq_str(&section, "GNOME") && chars_eq_str(&key, "auth-dialog") {
                    auth_dialog = Some(value);
                }
            },
            IniEntry::Other => {},
        }
        i += 1;
    }
    assert(ls.take(all@.len() as int) =~= ls);
    (opt_to_string(service), opt_to_string(auth_dialog))
}

/// The auth-dialog helper named by a `.name` file, when that file's service is
/// `service_type`.
pub open spec fn auth_dialog_for_spec(content: Seq<char>, service_type: Seq<char>) -> Option<
    Seq<char>,
> {
    let st = name_file_fold(lines(content));
    if st.1 == Some(service_type) {
        st.2
    } else {
        None
    }
}

/// The auth-dialog helper path named by a plugin `.name` file, when the file's
/// service is `service_type` (the caller still checks that the helper exists).
pub fn auth_dialog_for(content: &str, service_type: &str) -> (r: Option<String>)
    ensures
        opt_string_view(r) == auth_dialog_for_spec(content@, service_type@),
{
    let (service, auth_dialog) = parse_name_file(content);
    match service {
        Some(s) => {
            let sv = chars_of(s.as_str());
            if chars_eq_str(&sv, service_type) {
                auth_dialog
            } else {
                None
            }
        },
        None => None,
    }
}

/// An installed VPN plugin available for creating connections.
#[derive(Debug, Clone, PartialEq, Eq)]
pub struct VpnPlugin {
    /// `vpn.service-type` D-Bus name.
    pub service_type: String,
    /// Human-visible plugin name.
    pub name: String,
}

/// The state while reading a plugin file: section, service and name.
pub type PluginState = (Seq<char>, Option<Seq<char>>, Option<Seq<char>>);

/// One line of a plugin file: `[VPN Connection]`'s `service` and `name` are recorded.
pub open spec fn plugin_step(st: PluginState, line: Seq<char>) -> PluginState {
    match ini_line(line) {
        IniLine::Header(name) => (name, st.1, st.2),
        IniLine::Pair(key, value) => if st.0 == "VPN Connection"@ && key == "service"@ {
            (st.0, Some(value), st.2)
        } else if st.0 == "VPN Connection"@ && key == "name"@ {
            (st.0, st.1, Some(value))
        } else {
            st
        },
        IniLine::Other => st,
    }
}

/// The state after reading `ls`.
pub open spec fn plugin_fold(ls: Seq<Seq<char>>) -> PluginState
    decreases ls.len(),
{
    if ls.len() == 0 {
        (Seq::empty(), None, None)
    } else {
        plugin_step(plugin_fold(ls.drop_last()), ls.last())
    }
}

/// A service type's last `'.'`-segment when it is not empty, else the whole service
/// type (e.g. `org.freedesktop.NetworkManager.vpnc` gives `vpnc`).
pub open spec fn service_label(service: Seq<char>) -> Seq<char> {
    if plugin_short_name(service).len() > 0 {
        plugin_short_name(service)
    } else {
        service
    }
}

/// The plugin a `.name` file describes: its service, named by its `name` key or, when
/// absent, by its service label; `None` without a service.
pub open spec fn parse_plugin_spec(content: Seq<char>) -> Option<(Seq<char>, Seq<char>)> {
    let st = plugin_fold(lines(content));
    match st.1 {
        Some(service) => Some(
            (
                service,
                match st.2 {
                    Some(name) => name,
                    None => service_label(service),
                },
            ),
        ),
        None => None,
    }
}

/// The view of an optional plugin: its service type and name.
pub open spec fn plugin_view(p: Option<VpnPlugin>) -> Option<(Seq<char>, Seq<char>)> {
    match p {
        Some(v) => Some((v.service_type@, v.name@)),
        None => None,
    }
}

/// Turn an NM VPN service-type into a short label, e.g.
/// `org.freedesktop.NetworkManager.vpnc` gives `vpnc`.
pub fn label_from_service(service_type: &str) -> (r: String)
    ensures
        r@ == service_label(service_type@),
{
    let last = plugin_short_name_of(service_type);
    if last.len() > 0 {
        string_from(&last)
    } else {
        string_from(&chars_of(service_type))
    }
}

/// Parse `[VPN Connection] service` and `name` from a `.name` file into a plugin entry.
pub fn parse_plugin(content: &str) -> (r: Option<VpnPlugin>)
    ensures
        plugin_view(r) == parse_plugin_spec(content@),
{
    let chars = chars_of(content);
    let all = lines_of(&chars);
    let mut section: Vec<char> = Vec::new();
    let mut service: Option<Vec<char>> = None;
    let mut name: Option<Vec<char>> = None;
    let mut i: usize = 0;
    let ghost ls = lines(content@);
    while i < all.len()
        invariant
            i <= all@.len(),
            vec_views(all@) == ls,
            plugin_fold(ls.take(i as int)) == (
                section@,
                opt_chars_view(service),
                opt_chars_view(name),
            ),
        decreases all.len() - i,
    {
        assert(ls.take(i + 1).drop_last() =~= ls.take(i as int));
        assert(all@[i as int]@ == ls[i as int]);
        match classify_ini_line(&all[i]) {
            IniEntry::Header(h) => {
                section = h;
            },
            IniEntry::Pair(key, value) => {
                if chars_eq_str(&section, "VPN Connection") {
                    if chars_eq_str(&key, "service") {
                        service = Some(value);
                    } else if chars_eq_str(&key, "name") {
                        name = Some(value);
                    }
                }
            },
            IniEntry::Other => {},
        }
        i += 1;
    }
    assert(ls.take(all@.len() as int) =~= ls);
    match service {
        Some(s) => {
            let service_type = string_from(&s);
            let name = match name {
                Some(n) => string_from(&n),
                None => label_from_service(service_type.as_str()),
            };
            Some(VpnPlugin { service_type, name })
        },
        None => None,
    }
}

/// The auth-dialog command line: `-u uuid -n id -s service`, then `-i` when
/// interaction is allowed and `-r` when new secrets are requested.
pub open spec fn argv_spec(
    uuid: Seq<char>,
    id: Seq<char>,
    service_type: Seq<char>,
    allow_interaction: bool,
    request_new: bool,
) -> Seq<Seq<char>> {
    seq!["-u"@, uuid, "-n"@, id, "-s"@, service_type] + (if allow_interaction {
        seq!["-i"@]
    } else {
        Seq::empty()
    }) + (if request_new {
        seq!["-r"@]
    } else {
        Seq::empty()
    })
}

fn owned(s: &str) -> (r: String)
    ensures
        r@ == s@,
{
    string_from(&chars_of(s))
}

/// Build the auth-dialog argv. OpenConnect's getopt accepts only these options, so no
/// others are passed.
pub fn build_argv(
    uuid: &str,
    id: &str,
    service_type: &str,
    allow_interaction: bool,
    request_new: bool,
) -> (r: Vec<String>)
    ensures
        string_views(r@) == argv_spec(uuid@, id@, service_type@, allow_interaction, request_new),
{
    let mut argv: Vec<String> = Vec::new();
    argv.push(owned("-u"));
    argv.push(owned(uuid));
    argv.push(owned("-n"));
    argv.push(owned(id));
    argv.push(owned("-s"));
    argv.push(owned(service_type));
    if allow_interaction {
        argv.push(owned("-i"));
    }
    if request_new {
        argv.push(owned("-r"));
    }
    assert(string_views(argv@) =~= argv_spec(
        uuid@,
        id@,
        service_type@,
        allow_interaction,
        request_new,
    ));
    argv
}

/// A value with its newlines and carriage returns replaced by spaces.
pub open spec fn sanitize(s: Seq<char>) -> Seq<char> {
    s.map_values(|c: char| if c == '\n' || c == '\r' { ' ' } else { c })
}

/// The view of a list of string pairs.
pub open spec fn pair_views(v: Seq<(String, String)>) -> Seq<(Seq<char>, Seq<char>)> {
    v.map_values(|p: (String, String)| (p.0@, p.1@))
}

/// `<K>_KEY=key\n<K>_VAL=value\n` for each pair, in order.
pub open spec fn key_val_lines(
    key_tag: Seq<char>,
    val_tag: Seq<char>,
    pairs: Seq<(Seq<char>, Seq<char>)>,
) -> Seq<char>
    decreases pairs.len(),
{
    if pairs.len() == 0 {
        Seq::empty()
    } else {
        key_val_lines(key_tag, val_tag, pairs.drop_last()) + key_tag + sanitize(pairs.last().0)
            + seq!['\n'] + val_tag + sanitize(pairs.last().1) + seq!['\n']
    }
}

/// The auth-dialog stdin payload: the data pairs, the secret pairs, then the
/// `DONE`/`QUIT` terminator.
pub open spec fn serialize_stdin_spec(
    data: Seq<(Seq<char>, Seq<char>)>,
    secrets: Seq<(Seq<char>, Seq<char>)>,
) -> Seq<char> {
    key_val_lines("DATA_KEY="@, "DATA_VAL="@, data) + key_val_lines(
        "SECRET_KEY="@,
        "SECRET_VAL="@,
        secrets,
    ) + "DONE\n\nQUIT\n\n"@
}

fn push_sanitized(out: &mut Vec<char>, s: &String)
    ensures
        final(out)@ == old(out)@ + sanitize(s@),
{
    let v = chars_of(s.as_str());
    let mut clean: Vec<char> = Vec::new();
    let mut i: usize = 0;
    while i < v.len()
        invariant
            i <= v@.len(),
            v@ == s@,
            clean@ == sanitize(v@.take(i as int)),
        decreases v.len() - i,
    {
        let c = v[i];
        clean.push(
            if c == '\n' || c == '\r' {
                ' '
            } else {
                c
            },
        );
        assert(sanitize(v@.take(i + 1)) =~= sanitize(v@.take(i as int)).push(
            if c == '\n' || c == '\r' {
                ' '
            } else {
                c
            },
        ));
        i += 1;
    }
    assert(v@.take(v@.len() as int) =~= v@);
    push_all(out, &clean);
}

fn push_key_val_lines(out: &mut Vec<char>, key_tag: &str, val_tag: &str, pairs: &[(String, String)])
    ensures
        final(out)@ == old(out)@ + key_val_lines(key_tag@, val_tag@, pair_views(pairs@)),
{
    let ghost start = out@;
    let mut i: usize = 0;
    while i < pairs.len()
        invariant
            i <= pairs@.len(),
            out@ == start + key_val_lines(key_tag@, val_tag@, pair_views(pairs@).take(i as int)),
        decreases pairs.len() - i,
    {
        let ghost before = out@;
        push_str(out, key_tag);
        push_sanitized(out, &pairs[i].0);
        out.push('\n');
        push_str(out, val_tag);
        push_sanitized(out, &pairs[i].1);
        out.push('\n');
        let ghost pv = pair_views(pairs@);
        assert(pv.take(i + 1).drop_last() =~= pv.take(i as int));
        assert(pv.take(i + 1).last() == (pairs@[i as int].0@, pairs@[i as int].1@));
        assert(out@ =~= start + key_val_lines(key_tag@, val_tag@, pv.take(i + 1)));
        i += 1;
    }
    assert(pair_views(pairs@).take(pairs@.len() as int) =~= pair_views(pairs@));
}

/// Serialize the stdin payload in NM's exact wire format: `DATA_KEY`/`DATA_VAL` pairs,
/// then `SECRET_KEY`/`SECRET_VAL` pairs, then the `DONE`/`QUIT` terminator. Newlines
/// inside values are replaced with spaces.
pub fn serialize_stdin(data: &[(String, String)], secrets: &[(String, String)]) -> (r: String)
    ensures
        r@ == serialize_stdin_spec(pair_views(data@), pair_views(secrets@)),
{
    let mut out: Vec<char> = Vec::new();
    push_key_val_lines(&mut out, "DATA_KEY=", "DATA_VAL=", data);
    push_key_val_lines(&mut out, "SECRET_KEY=", "SECRET_VAL=", secrets);
    push_str(&mut out, "DONE\n\nQUIT\n\n");
    assert(out@ =~= serialize_stdin_spec(pair_views(data@), pair_views(secrets@)));
    string_from(&out)
}

/// The `(key, value)` pairs of the auth-dialog output: alternating key and value
/// lines, up to the first empty key line; a key on the last line has an empty value.
pub open spec fn stdout_pairs(ls: Seq<Seq<char>>) -> Seq<(Seq<char>, Seq<char>)>
    decreases ls.len(),
{
    if ls.len() == 0 || ls[0].len() == 0 {
        Seq::empty()
    } else if ls.len() == 1 {
        seq![(ls[0], Seq::<char>::empty())]
    } else {
        seq![(ls[0], ls[1])] + stdout_pairs(ls.skip(2))
    }
}

/// The map that inserting the pairs in order builds (a later key replaces an earlier
/// one).
pub open spec fn pairs_map(pairs: Seq<(Seq<char>, Seq<char>)>) -> Map<Seq<char>, Seq<char>>
    decreases pairs.len(),
{
    if pairs.len() == 0 {
        Map::empty()
    } else {
        pairs_map(pairs.drop_last()).insert(pairs.last().0, pairs.last().1)
    }
}

/// Whether no key occurs twice.
pub open spec fn distinct_keys(pairs: Seq<(Seq<char>, Seq<char>)>) -> bool {
    forall|i: int, j: int| 0 <= i < j < pairs.len() ==> #[trigger] pairs[i].0 != #[trigger] pairs[j].0
}

proof fn lemma_pairs_map_update(pairs: Seq<(Seq<char>, Seq<char>)>, i: int, v: Seq<char>)
    requires
        distinct_keys(pairs),
        0 <= i < pairs.len(),
    ensures
        pairs_map(pairs.update(i, (pairs[i].0, v))) == pairs_map(pairs).insert(pairs[i].0, v),
    decreases pairs.len(),
{
    let u = pairs.update(i, (pairs[i].0, v));
    if i == pairs.len() - 1 {
        assert(u.drop_last() =~= pairs.drop_last());
        assert(pairs_map(u) =~= pairs_map(pairs).insert(pairs[i].0, v));
    } else {
        let d = pairs.drop_last();
        assert(u.drop_last() =~= d.update(i, (d[i].0, v)));
        lemma_pairs_map_update(d, i, v);
        assert(pairs[i].0 != pairs.last().0);
        assert(pairs_map(u) =~= pairs_map(pairs).insert(pairs[i].0, v));
    }
}

proof fn lemma_pairs_map_dom(pairs: Seq<(Seq<char>, Seq<char>)>)
    requires
        distinct_keys(pairs),
    ensures
        pairs_map(pairs).dom().finite(),
        pairs_map(pairs).dom().len() == pairs.len(),
        forall|k: Seq<char>|
            pairs_map(pairs).dom().contains(k) <==> exists|i: int|
                0 <= i < pairs.len() && #[trigger] pairs[i].0 == k,
    decreases pairs.len(),
{
    if pairs.len() > 0 {
        let d = pairs.drop_last();
        lemma_pairs_map_dom(d);
        assert forall|k: Seq<char>|
            pairs_map(pairs).dom().contains(k) <==> exists|i: int|
                0 <= i < pairs.len() && #[trigger] pairs[i].0 == k by {
            if pairs_map(pairs).dom().contains(k) && k != pairs.last().0 {
                let i = choose|i: int| 0 <= i < d.len() && #[trigger] d[i].0 == k;
                assert(pairs[i].0 == k);
            }
            if exists|i: int| 0 <= i < pairs.len() && #[trigger] pairs[i].0 == k {
                let i = choose|i: int| 0 <= i < pairs.len() && #[trigger] pairs[i].0 == k;
                if i < pairs.len() - 1 {
                    assert(d[i].0 == k);
                }
            }
        }
        assert(!pairs_map(d).dom().contains(pairs.last().0)) by {
            if pairs_map(d).dom().contains(pairs.last().0) {
                let i = choose|i: int| 0 <= i < d.len() && #[trigger] d[i].0 == pairs.last().0;
                assert(pairs[i].0 == pairs[pairs.len() - 1].0);
            }
        }
    }
}

/// String key/value pairs with distinct keys: a map from key to value (secrets,
/// `vpn.data`).
#[derive(Debug, Clone, Default, PartialEq, Eq)]
pub struct StringMap {
    entries: Vec<(String, String)>,
}

impl View for StringMap {
    type V = Map<Seq<char>, Seq<char>>;

    /// The map from keys to values.
    closed spec fn view(&self) -> Map<Seq<char>, Seq<char>> {
        pairs_map(pair_views(self.entries@))
    }
}

impl StringMap {
    /// The entries, as viewed pairs.
    pub closed spec fn pairs(&self) -> Seq<(Seq<char>, Seq<char>)> {
        pair_views(self.entries@)
    }

    /// No key occurs twice.
    pub closed spec fn well_formed(&self) -> bool {
        distinct_keys(self.pairs())
    }

    /// An empty map.
    pub fn new() -> (r: StringMap)
        ensures
            r.well_formed(),
            r@ == Map::<Seq<char>, Seq<char>>::empty(),
    {
        let r = StringMap { entries: Vec::new() };
        assert(r.pairs() =~= Seq::<(Seq<char>, Seq<char>)>::empty());
        r
    }

    /// Sets `key` to `value`, replacing any earlier value of `key`.
    pub fn insert(&mut self, key: String, value: String)
        requires
            old(self).well_formed(),
        ensures
            final(self).well_formed(),
            final(self)@ == old(self)@.insert(key@, value@),
    {
        let ghost before = self.pairs();
        let kv = chars_of(key.as_str());
        let mut i: usize = 0;
        while i < self.entries.len()
            invariant
                i <= self.entries@.len(),
                before == self.pairs(),
                self.entries@ == old(self).entries@,
                distinct_keys(before),
                kv@ == key@,
                forall|j: int| 0 <= j < i ==> before[j].0 != key@,
            decreases self.entries.len() - i,
        {
            let ev = chars_of(self.entries[i].0.as_str());
            if chars_eq(&ev, &kv) {
                let ghost pi = before[i as int];
                assert(pi.0 == key@);
                let ghost vview = value@;
                self.entries.set(i, (key, value));
                proof {
                    assert(self.pairs() =~= before.update(i as int, (before[i as int].0, vview)));
                    lemma_pairs_map_update(before, i as int, vview);
                    assert(self@ == pairs_map(before).insert(pi.0, vview));
                    assert forall|a: int, b: int|
                        0 <= a < b < self.pairs().len() implies #[trigger] self.pairs()[a].0
                        != #[trigger] self.pairs()[b].0 by {
                        assert(self.pairs()[a].0 == before[a].0);
                        assert(self.pairs()[b].0 == before[b].0);
                    }
                }
                return ;
            }
            i += 1;
        }
        let ghost kview = key@;
        let ghost vview = value@;
        self.entries.push((key, value));
        assert(self.pairs() =~= before.push((kview, vview)));
        assert(self.pairs().drop_last() =~= before);
        assert forall|a: int, b: int|
            0 <= a < b < self.pairs().len() implies #[trigger] self.pairs()[a].0
            != #[trigger] self.pairs()[b].0 by {
            assert(self.pairs()[a].0 == before[a].0);
            if b < before.len() {
                assert(self.pairs()[b].0 == before[b].0);
            }
        }
        assert(self@ == pairs_map(before).insert(kview, vview));
    }

    /// The value of `key`, if present.
    pub fn get(&self, key: &str) -> (r: Option<&String>)
        requires
            self.well_formed(),
        ensures
            match r {
                Some(v) => self@.dom().contains(key@) && self@[key@] == v@,
                None => !self@.dom().contains(key@),
            },
    {
        let kv = chars_of(key);
        let mut i: usize = 0;
        proof {
            lemma_pairs_map_dom(self.pairs());
        }
        while i < self.entries.len()
            invariant
                i <= self.entries@.len(),
                self.well_formed(),
                kv@ == key@,
                forall|j: int| 0 <= j < i ==> self.pairs()[j].0 != key@,
            decreases self.entries.len() - i,
        {
            let ev = chars_of(self.entries[i].0.as_str());
            if chars_eq(&ev, &kv) {
                proof {
                    lemma_pairs_map_value(self.pairs(), i as int);
                }
                return Some(&self.entries[i].1);
            }
            i += 1;
        }
        None
    }

    /// The number of keys.
    pub fn len(&self) -> (r: usize)
        requires
            self.well_formed(),
        ensures
            r == self@.dom().len(),
    {
        proof {
            lemma_pairs_map_dom(self.pairs());
        }
        self.entries.len()
    }

    /// The key/value pairs, each key once.
    pub fn into_pairs(self) -> (r: Vec<(String, String)>)
        ensures
            pair_views(r@) == self.pairs(),
            pairs_map(pair_views(r@)) == self@,
            self.well_formed() ==> distinct_keys(pair_views(r@)),
    {
        self.entries
    }
}

proof fn lemma_pairs_map_value(pairs: Seq<(Seq<char>, Seq<char>)>, i: int)
    requires
        distinct_keys(pairs),
        0 <= i < pairs.len(),
    ensures
        pairs_map(pairs).dom().contains(pairs[i].0),
        pairs_map(pairs)[pairs[i].0] == pairs[i].1,
    decreases pairs.len(),
{
    if i < pairs.len() - 1 {
        let d = pairs.drop_last();
        lemma_pairs_map_value(d, i);
        assert(pairs[i].0 != pairs.last().0);
    }
}

/// Parse the auth-dialog stdout: alternating `key\nvalue\n` lines, stopping at the
/// first empty key (the terminating blank line). Each pair becomes a `vpn.secrets`
/// entry.
pub fn parse_stdout(output: &str) -> (r: StringMap)
    ensures
        r.well_formed(),
        r@ == pairs_map(stdout_pairs(lines(output@))),
{
    let chars = chars_of(output);
    let all = lines_of(&chars);
    let ghost ls = lines(output@);
    let mut secrets = StringMap::new();
    let mut i: usize = 0;
    let ghost mut done: Seq<(Seq<char>, Seq<char>)> = Seq::empty();
    assert(ls.skip(0) =~= ls);
    assert(done + stdout_pairs(ls) =~= stdout_pairs(ls));
    while i < all.len() && all[i].len() > 0
        invariant
            i <= all@.len(),
            vec_views(all@) == ls,
            secrets.well_formed(),
            secrets@ == pairs_map(done),
            stdout_pairs(ls) == done + stdout_pairs(ls.skip(i as int)),
        decreases all.len() - i,
    {
        let ghost rest = ls.skip(i as int);
        assert(rest[0] == all@[i as int]@);
        let key = string_from(&all[i]);
        let value = if i + 1 < all.len() {
            string_from(&all[i + 1])
        } else {
            string_from(&Vec::new())
        };
        let ghost pair = (key@, value@);
        secrets.insert(key, value);
        proof {
            if i + 1 < all@.len() {
                assert(rest[1] == all@[i + 1]@);
                assert(rest.skip(2) =~= ls.skip(i + 2));
                assert(stdout_pairs(rest) == seq![pair] + stdout_pairs(rest.skip(2)));
            } else {
                assert(value@ =~= Seq::<char>::empty());
                assert(ls.skip(i + 1) =~= Seq::<Seq<char>>::empty());
            }
            assert((done + seq![pair]).drop_last() =~= done);
            done = done + seq![pair];
        }
        i = if i + 1 < all.len() {
            i + 2
        } else {
            i + 1
        };
    }
    proof {
        let rest = ls.skip(i as int);
        if i < all@.len() {
            assert(rest[0] == all@[i as int]@);
        }
        assert(done + Seq::<(Seq<char>, Seq<char>)>::empty() =~= done);
    }
    secrets
}

/// The plugins in order, each service type kept at its first occurrence only.
pub open spec fn first_of_each_service(s: Seq<VpnPlugin>) -> Seq<VpnPlugin>
    decreases s.len(),
{
    if s.len() == 0 {
        Seq::empty()
    } else {
        let d = first_of_each_service(s.drop_last());
        if exists|i: int| 0 <= i < s.len() - 1 && #[trigger] s[i].service_type@ == s.last().service_type@ {
            d
        } else {
            d.push(s.last())
        }
    }
}

/// The picker's order: case-insensitive by name.
pub open spec fn plugin_key_fn() -> spec_fn(VpnPlugin) -> (bool, nat, Seq<char>) {
    |p: VpnPlugin| (false, 0nat, lowercase(p.name@))
}

/// The installed plugins for the create picker: deduplicated by service type (first
/// one wins) and sorted by name, case-insensitively and stably.
pub fn plugin_list(candidates: Vec<VpnPlugin>) -> (r: Vec<VpnPlugin>)
    ensures
        sorted_by(r@, plugin_key_fn()),
        exists|p: Seq<int>|
            stable_permutation_by(first_of_each_service(candidates@), r@, p, plugin_key_fn()),
{
    let ghost orig = candidates@;
    let mut rest = candidates;
    let mut seen: Vec<Vec<char>> = Vec::new();
    let mut kept: Vec<VpnPlugin> = Vec::new();
    let mut k: usize = 0;
    let n = rest.len();
    assert(orig.skip(0) =~= orig);
    while rest.len() > 0
        invariant
            n == orig.len(),
            k <= n,
            rest@ == orig.skip(k as int),
            seen@.len() == k,
            forall|i: int| 0 <= i < k ==> #[trigger] seen@[i]@ == orig[i].service_type@,
            kept@ == first_of_each_service(orig.take(k as int)),
        decreases rest.len(),
    {
        let x = rest.remove(0);
        assert(x == orig[k as int]);
        let sv = chars_of(x.service_type.as_str());
        let mut dup = false;
        let mut j: usize = 0;
        while j < seen.len()
            invariant
                j <= seen@.len(),
                seen@.len() == k,
                k < n,
                n == orig.len(),
                sv@ == orig[k as int].service_type@,
                forall|i: int| 0 <= i < k ==> #[trigger] seen@[i]@ == orig[i].service_type@,
                dup == exists|i: int| 0 <= i < j && #[trigger] orig[i].service_type@ == sv@,
            decreases seen.len() - j,
        {
            if chars_eq(&seen[j], &sv) {
                dup = true;
            }
            j += 1;
        }
        let ghost pre = orig.take(k + 1);
        assert(pre.drop_last() =~= orig.take(k as int));
        assert(pre.last() == orig[k as int]);
        assert(dup == exists|i: int| 0 <= i < pre.len() - 1 && #[trigger] pre[i].service_type@ == pre.last().service_type@) by {
            if dup {
                let i = choose|i: int| 0 <= i < k && #[trigger] orig[i].service_type@ == sv@;
                assert(pre[i].service_type@ == pre.last().service_type@);
            }
            if exists|i: int| 0 <= i < pre.len() - 1 && #[trigger] pre[i].service_type@ == pre.last().service_type@ {
                let i = choose|i: int| 0 <= i < pre.len() - 1 && #[trigger] pre[i].service_type@ == pre.last().service_type@;
                assert(orig[i].service_type@ == sv@);
            }
        }
        seen.push(sv);
        if !dup {
            kept.push(x);
        }
        k += 1;
        assert(rest@ =~= orig.skip(k as int));
    }
    assert(orig.take(n as int) =~= orig);
    let m = kept.len();
    let mut keys: Vec<(bool, u64, Vec<char>)> = Vec::new();
    let mut t: usize = 0;
    while t < m
        invariant
            m == kept@.len(),
            t <= m,
            keys@.len() == t,
            forall|s: int| 0 <= s < t ==> key_view(#[trigger] keys@[s]) == plugin_key_fn()(kept@[s]),
        decreases m - t,
    {
        keys.push((false, 0, lowercase_chars(kept[t].name.as_str())));
        t += 1;
    }
    let ghost before = kept@;
    stable_sort_by_keys(&mut kept, keys, Ghost(plugin_key_fn()));
    kept
}

} // verus!
