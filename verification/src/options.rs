//! Options of backends and frontends, as they are given on the command line.
//!
//! A backend or frontend is asked for by its name, and options may follow
//! the name: `fsaccel,path=/sys/bus/iio/devices/iio:device0,fix_sign=true`.
//! The texts are searched with regular expressions; what is made of the
//! matches is stated over `regex_captures`.

use vstd::prelude::*;
use crate::pattern::{captures_iter, regex_captures, NAME_RE, OPT_RE};
use crate::text::same_text;

verus! {

/// The frontend used where none is asked for.
pub const DEFAULT_FRONTEND: &'static str = "file";

/// The options of frontends used where none are given.
pub const DEFAULT_FRONTEND_OPTS: &'static str = "";

/// The backend used where none is asked for.
pub const DEFAULT_BACKEND: &'static str = "fsaccel";

/// The options of backends used where none are given.
pub const DEFAULT_BACKEND_OPTS: &'static str = "";

/// An option: a name and the value given for it.
pub struct Pair {
    pub name: Seq<char>,
    pub value: Seq<char>,
}

/// An option of one backend or frontend.
pub struct Triple {
    pub owner: Seq<char>,
    pub name: Seq<char>,
    pub value: Seq<char>,
}

/// `map` after the options `pairs` were set in it, one after the other.
pub open spec fn with_pairs(map: Map<Seq<char>, Seq<char>>, pairs: Seq<Pair>) -> Map<
    Seq<char>,
    Seq<char>,
>
    decreases pairs.len(),
{
    if pairs.len() == 0 {
        map
    } else {
        with_pairs(map, pairs.drop_last()).insert(pairs.last().name, pairs.last().value)
    }
}

/// The options that matches of the option pattern stand for: the first and
/// second group of each match that has both.
pub open spec fn option_pairs(matches: Seq<Seq<Option<Seq<char>>>>) -> Seq<Pair>
    decreases matches.len(),
{
    if matches.len() == 0 {
        Seq::empty()
    } else {
        let groups = matches.last();
        let before = option_pairs(matches.drop_last());
        if groups.len() > 2 && groups[1] is Some && groups[2] is Some {
            before.push(Pair { name: groups[1]->0, value: groups[2]->0 })
        } else {
            before
        }
    }
}

/// The options that the text `optstr` holds.
pub open spec fn options_in(optstr: Seq<char>) -> Seq<Pair> {
    match regex_captures(OPT_RE@, optstr) {
        Some(matches) => option_pairs(matches),
        None => Seq::empty(),
    }
}

/// The options `pairs` as options of `owner`.
pub open spec fn owned_by(owner: Seq<char>, pairs: Seq<Pair>) -> Seq<Triple> {
    Seq::new(pairs.len(), |i: int| Triple { owner, name: pairs[i].name, value: pairs[i].value })
}

/// The name that a match of the name pattern holds, if it holds one.
pub open spec fn owner_in(groups: Seq<Option<Seq<char>>>) -> Option<Seq<char>> {
    if groups.len() > 1 {
        groups[1]
    } else {
        None
    }
}

/// The text of the options that a match of the name pattern holds; empty
/// where it holds none.
pub open spec fn options_text_in(groups: Seq<Option<Seq<char>>>) -> Seq<char> {
    if groups.len() > 2 && groups[2] is Some {
        groups[2]->0
    } else {
        Seq::empty()
    }
}

/// The names that matches of the name pattern hold, in order.
pub open spec fn owners_in(matches: Seq<Seq<Option<Seq<char>>>>) -> Seq<Seq<char>>
    decreases matches.len(),
{
    if matches.len() == 0 {
        Seq::empty()
    } else {
        let before = owners_in(matches.drop_last());
        match owner_in(matches.last()) {
            Some(owner) => before.push(owner),
            None => before,
        }
    }
}

/// The options that matches of the name pattern hold, each with the name
/// that it was given for, in order.
pub open spec fn settings_in(matches: Seq<Seq<Option<Seq<char>>>>) -> Seq<Triple>
    decreases matches.len(),
{
    if matches.len() == 0 {
        Seq::empty()
    } else {
        let before = settings_in(matches.drop_last());
        match owner_in(matches.last()) {
            Some(owner) => before + owned_by(owner, options_in(options_text_in(matches.last()))),
            None => before,
        }
    }
}

/// The matches of the name pattern in `text`; none where the pattern is not
/// taken.
pub open spec fn named_in(text: Seq<char>) -> Seq<Seq<Option<Seq<char>>>> {
    match regex_captures(NAME_RE@, text) {
        Some(matches) => matches,
        None => Seq::empty(),
    }
}

/// The options of `owner` among `settings`: each name with the value that
/// was given for it last.
pub open spec fn options_of(settings: Seq<Triple>, owner: Seq<char>) -> Map<Seq<char>, Seq<char>>
    decreases settings.len(),
{
    if settings.len() == 0 {
        Map::empty()
    } else {
        let before = options_of(settings.drop_last(), owner);
        if settings.last().owner == owner {
            before.insert(settings.last().name, settings.last().value)
        } else {
            before
        }
    }
}

/// An option that is set later takes the place of one set before: after
/// the options `pairs` were set, a name has the value of the last option of
/// that name, and a name that no option has is as it was.
pub proof fn lemma_with_pairs(map: Map<Seq<char>, Seq<char>>, pairs: Seq<Pair>, name: Seq<char>)
    ensures
        (forall|i: int| 0 <= i < pairs.len() ==> (#[trigger] pairs[i]).name != name) ==> {
            &&& with_pairs(map, pairs).contains_key(name) == map.contains_key(name)
            &&& map.contains_key(name) ==> with_pairs(map, pairs)[name] == map[name]
        },
        forall|i: int|
            0 <= i < pairs.len() && (#[trigger] pairs[i]).name == name && (forall|j: int|
                i < j < pairs.len() ==> (#[trigger] pairs[j]).name != name) ==> with_pairs(
                map,
                pairs,
            ).contains_key(name) && with_pairs(map, pairs)[name] == pairs[i].value,
    decreases pairs.len(),
{
    if pairs.len() > 0 {
        let before = pairs.drop_last();
        lemma_with_pairs(map, before, name);
        assert forall|i: int|
            0 <= i < pairs.len() && (#[trigger] pairs[i]).name == name && (forall|j: int|
                i < j < pairs.len() ==> (#[trigger] pairs[j]).name != name) implies with_pairs(
            map,
            pairs,
        ).contains_key(name) && with_pairs(map, pairs)[name] == pairs[i].value by {
            if i < pairs.len() - 1 {
                assert(pairs.last().name != name);
                assert(before[i] == pairs[i]);
                assert forall|j: int| i < j < before.len() implies (#[trigger] before[j]).name
                    != name by {
                    assert(before[j] == pairs[j]);
                }
            }
        }
        if forall|i: int| 0 <= i < pairs.len() ==> (#[trigger] pairs[i]).name != name {
            assert(pairs.last().name != name);
            assert forall|i: int| 0 <= i < before.len() implies (#[trigger] before[i]).name
                != name by {
                assert(before[i] == pairs[i]);
            }
        }
    }
}

/// One option as it is held: its name and its value.
#[derive(Debug)]
pub struct Setting {
    name: String,
    value: String,
}

/// The options of one backend or frontend: names with their values.
#[derive(Debug)]
pub struct Options {
    settings: Vec<Setting>,
}

/// The map that settings stand for: each name with the value that was set
/// for it last.
spec fn settings_map(settings: Seq<Setting>) -> Map<Seq<char>, Seq<char>>
    decreases settings.len(),
{
    if settings.len() == 0 {
        Map::empty()
    } else {
        settings_map(settings.drop_last()).insert(settings.last().name@, settings.last().value@)
    }
}

/// What a name maps to does not depend on the settings behind the last one
/// for that name.
proof fn lemma_settings_map_from(settings: Seq<Setting>, name: Seq<char>, upto: int)
    requires
        0 <= upto <= settings.len(),
        forall|k: int| upto <= k < settings.len() ==> settings[k].name@ != name,
    ensures
        settings_map(settings).contains_key(name) == settings_map(settings.take(upto)).contains_key(
            name,
        ),
        settings_map(settings).contains_key(name) ==> settings_map(settings)[name] == settings_map(
            settings.take(upto),
        )[name],
    decreases settings.len() - upto,
{
    if upto < settings.len() {
        let shorter = settings.drop_last();
        assert(shorter.take(upto) =~= settings.take(upto));
        lemma_settings_map_from(shorter, name, upto);
    } else {
        assert(settings.take(upto) =~= settings);
    }
}

impl View for Options {
    type V = Map<Seq<char>, Seq<char>>;

    closed spec fn view(&self) -> Map<Seq<char>, Seq<char>> {
        settings_map(self.settings@)
    }
}

impl Options {
    /// Returns options of which none is set.
    pub fn new() -> (options: Options)
        ensures
            options@ == Map::<Seq<char>, Seq<char>>::empty(),
    {
        Options { settings: Vec::new() }
    }

    /// Sets the option `name` to `value`.
    pub fn insert(&mut self, name: String, value: String)
        ensures
            final(self)@ == old(self)@.insert(name@, value@),
    {
        self.settings.push(Setting { name, value });
        assert(self.settings@.drop_last() =~= old(self).settings@);
    }

    /// Returns the value of the option `name`, if it is set.
    pub fn get(&self, name: &str) -> (value: Option<&str>)
        ensures
            match value {
                Some(text) => self@.contains_key(name@) && self@[name@] == text@,
                None => !self@.contains_key(name@),
            },
    {
        let mut at: usize = self.settings.len();
        while at > 0
            invariant
                at <= self.settings@.len(),
                forall|k: int| at <= k < self.settings@.len() ==> self.settings@[k].name@ != name@,
            decreases at,
        {
            at = at - 1;
            if same_text(self.settings[at].name.as_str(), name) {
                proof {
                    lemma_settings_map_from(self.settings@, name@, at + 1);
                    assert(self.settings@.take(at + 1).drop_last() =~= self.settings@.take(
                        at as int,
                    ));
                }
                return Some(self.settings[at].value.as_str());
            }
        }
        proof {
            lemma_settings_map_from(self.settings@, name@, 0);
            assert(self.settings@.take(0) =~= Seq::<Setting>::empty());
        }
        None
    }

    /// Sets the options that matches of the option pattern stand for.
    pub fn insert_matches(&mut self, matches: &Vec<Vec<Option<String>>>)
        ensures
            final(self)@ == with_pairs(old(self)@, option_pairs(matches.deep_view())),
    {
        let ghost all = matches.deep_view();
        let mut at: usize = 0;
        assert(all.take(0) =~= Seq::<Seq<Option<Seq<char>>>>::empty());
        while at < matches.len()
            invariant
                at <= matches@.len(),
                all == matches.deep_view(),
                self@ == with_pairs(old(self)@, option_pairs(all.take(at as int))),
            decreases matches@.len() - at,
        {
            let groups = &matches[at];
            proof {
                assert(all.take(at + 1).drop_last() =~= all.take(at as int));
                assert(all.take(at + 1).last() == groups.deep_view());
            }
            if groups.len() > 2 {
                match (&groups[1], &groups[2]) {
                    (Some(name), Some(value)) => {
                        let ghost before = option_pairs(all.take(at as int));
                        assert(before.push(Pair { name: name@, value: value@ }).drop_last()
                            =~= before);
                        self.insert(name.clone(), value.clone());
                    },
                    _ => {},
                }
            }
            at = at + 1;
        }
        assert(all.take(at as int) =~= all);
    }
}

/// Reads the options that the text `optstr` holds and sets them in `optmap`.
pub fn parse_options(optstr: &str, optmap: &mut Options)
    ensures
        final(optmap)@ == with_pairs(old(optmap)@, options_in(optstr@)),
{
    match captures_iter(OPT_RE, optstr) {
        Some(matches) => optmap.insert_matches(&matches),
        None => {},
    }
}

/// One option of one backend or frontend as it is held: whose it is, its
/// name and its value.
#[derive(Debug)]
pub struct Entry {
    owner: String,
    name: String,
    value: String,
}

impl View for Entry {
    type V = Triple;

    closed spec fn view(&self) -> Triple {
        Triple { owner: self.owner@, name: self.name@, value: self.value@ }
    }
}

/// The options of all backends or frontends, in the order in which they
/// were given.
#[derive(Debug)]
pub struct OptionTable {
    entries: Vec<Entry>,
}

impl View for OptionTable {
    type V = Seq<Triple>;

    closed spec fn view(&self) -> Seq<Triple> {
        Seq::new(self.entries@.len(), |i: int| self.entries@[i]@)
    }
}

impl OptionTable {
    /// Returns a table without options.
    pub fn new() -> (table: OptionTable)
        ensures
            table@ == Seq::<Triple>::empty(),
    {
        let table = OptionTable { entries: Vec::new() };
        assert(table@ =~= Seq::<Triple>::empty());
        table
    }

    /// Adds the option `name` of `owner` with the value `value`.
    pub fn insert(&mut self, owner: &str, name: String, value: String)
        ensures
            final(self)@ == old(self)@.push(Triple { owner: owner@, name: name@, value: value@ }),
    {
        self.entries.push(Entry { owner: owner.to_owned(), name, value });
        assert(self@ =~= old(self)@.push(Triple { owner: owner@, name: name@, value: value@ }));
    }

    /// Adds, as options of `owner`, the options that matches of the option
    /// pattern stand for.
    pub fn insert_matches(&mut self, owner: &str, matches: &Vec<Vec<Option<String>>>)
        ensures
            final(self)@ == old(self)@ + owned_by(owner@, option_pairs(matches.deep_view())),
    {
        let ghost all = matches.deep_view();
        let mut at: usize = 0;
        assert(all.take(0) =~= Seq::<Seq<Option<Seq<char>>>>::empty());
        assert(self@ =~= old(self)@ + owned_by(owner@, option_pairs(all.take(0))));
        while at < matches.len()
            invariant
                at <= matches@.len(),
                all == matches.deep_view(),
                self@ == old(self)@ + owned_by(owner@, option_pairs(all.take(at as int))),
            decreases matches@.len() - at,
        {
            let groups = &matches[at];
            proof {
                assert(all.take(at + 1).drop_last() =~= all.take(at as int));
                assert(all.take(at + 1).last() == groups.deep_view());
            }
            if groups.len() > 2 {
                match (&groups[1], &groups[2]) {
                    (Some(name), Some(value)) => {
                        let ghost before = option_pairs(all.take(at as int));
                        let ghost pair = Pair { name: name@, value: value@ };
                        self.insert(owner, name.clone(), value.clone());
                        assert(self@ =~= old(self)@ + owned_by(owner@, before.push(pair)));
                    },
                    _ => {},
                }
            }
            at = at + 1;
        }
        assert(all.take(at as int) =~= all);
    }

    /// Adds the options that matches of the name pattern hold, and returns
    /// the names that the matches hold.
    pub fn insert_named(&mut self, matches: &Vec<Vec<Option<String>>>) -> (names: Vec<String>)
        ensures
            final(self)@ == old(self)@ + settings_in(matches.deep_view()),
            names.deep_view() == owners_in(matches.deep_view()),
    {
        let ghost all = matches.deep_view();
        let mut names: Vec<String> = Vec::new();
        let mut at: usize = 0;
        assert(all.take(0) =~= Seq::<Seq<Option<Seq<char>>>>::empty());
        assert(self@ =~= old(self)@ + settings_in(all.take(0)));
        assert(names.deep_view() =~= owners_in(all.take(0)));
        while at < matches.len()
            invariant
                at <= matches@.len(),
                all == matches.deep_view(),
                self@ == old(self)@ + settings_in(all.take(at as int)),
                names.deep_view() == owners_in(all.take(at as int)),
            decreases matches@.len() - at,
        {
            let groups = &matches[at];
            proof {
                assert(all.take(at + 1).drop_last() =~= all.take(at as int));
                assert(all.take(at + 1).last() == groups.deep_view());
            }
            if groups.len() > 1 {
                match &groups[1] {
                    Some(owner) => {
                        let ghost before = self@;
                        let ghost listed = names.deep_view();
                        names.push(owner.clone());
                        assert(names.deep_view() =~= listed.push(owner@));
                        let found = if groups.len() > 2 {
                            match &groups[2] {
                                Some(text) => captures_iter(OPT_RE, text.as_str()),
                                None => {
                                    proof {
                                        reveal_strlit("");
                                        assert(""@ =~= Seq::<char>::empty());
                                    }
                                    captures_iter(OPT_RE, "")
                                },
                            }
                        } else {
                            proof {
                                reveal_strlit("");
                                assert(""@ =~= Seq::<char>::empty());
                            }
                            captures_iter(OPT_RE, "")
                        };
                        match found {
                            Some(options) => {
                                self.insert_matches(owner.as_str(), &options);
                            },
                            None => {
                                assert(self@ =~= before + owned_by(
                                    owner@,
                                    Seq::<Pair>::empty(),
                                ));
                            },
                        }
                        assert(self@ =~= old(self)@ + settings_in(all.take(at + 1)));
                    },
                    None => {},
                }
            }
            at = at + 1;
        }
        assert(all.take(at as int) =~= all);
        names
    }

    /// Returns the options of `owner`: each name that an option of `owner`
    /// has, with the value that was given for it last.
    pub fn options(&self, owner: &str) -> (options: Options)
        ensures
            options@ == options_of(self@, owner@),
    {
        let mut options = Options::new();
        let mut at: usize = 0;
        assert(self@.take(0) =~= Seq::<Triple>::empty());
        while at < self.entries.len()
            invariant
                at <= self.entries@.len(),
                self@.len() == self.entries@.len(),
                options@ == options_of(self@.take(at as int), owner@),
            decreases self.entries@.len() - at,
        {
            let entry = &self.entries[at];
            proof {
                assert(self@.take(at + 1).drop_last() =~= self@.take(at as int));
                assert(self@.take(at + 1).last() == entry@);
            }
            if same_text(entry.owner.as_str(), owner) {
                options.insert(entry.name.clone(), entry.value.clone());
            }
            at = at + 1;
        }
        assert(self@.take(at as int) =~= self@);
        options
    }
}

/// Reads which backends or frontends are asked for, and with which options.
///
/// `names` holds the names asked for, each with its options behind it;
/// `options` holds options given apart from that. The result is the names
/// asked for, in order, and the options of `options` followed by those of
/// `names`.
pub fn get_options(names: &str, options: &str) -> (r: (Vec<String>, OptionTable))
    ensures
        r.0.deep_view() == owners_in(named_in(names@)),
        r.1@ == settings_in(named_in(options@)) + settings_in(named_in(names@)),
{
    let mut table = OptionTable::new();
    match captures_iter(NAME_RE, options) {
        Some(matches) => {
            let _ = table.insert_named(&matches);
        },
        None => {},
    }
    assert(table@ =~= settings_in(named_in(options@)));
    let list = match captures_iter(NAME_RE, names) {
        Some(matches) => table.insert_named(&matches),
        None => Vec::new(),
    };
    assert(list.deep_view() =~= owners_in(named_in(names@)));
    assert(table@ =~= settings_in(named_in(options@)) + settings_in(named_in(names@)));
    (list, table)
}

/// Reads which frontends are asked for, and with which options: see
/// `get_options`. Where nothing is given, the defaults are read.
pub fn get_frontend_options(frontends: Option<&str>, frontend_options: Option<&str>) -> (r: (
    Vec<String>,
    OptionTable,
))
    ensures
        ({
            let names = match frontends {
                Some(text) => text@,
                None => DEFAULT_FRONTEND@,
            };
            let options = match frontend_options {
                Some(text) => text@,
                None => DEFAULT_FRONTEND_OPTS@,
            };
            &&& r.0.deep_view() == owners_in(named_in(names))
            &&& r.1@ == settings_in(named_in(options)) + settings_in(named_in(names))
        }),
{
    let names = match frontends {
        Some(text) => text,
        None => DEFAULT_FRONTEND,
    };
    let options = match frontend_options {
        Some(text) => text,
        None => DEFAULT_FRONTEND_OPTS,
    };
    get_options(names, options)
}

/// Reads which backends are asked for, and with which options: see
/// `get_options`. Where nothing is given, the defaults are read.
pub fn get_backend_options(backends: Option<&str>, backend_options: Option<&str>) -> (r: (
    Vec<String>,
    OptionTable,
))
    ensures
        ({
            let names = match backends {
                Some(text) => text@,
                None => DEFAULT_BACKEND@,
            };
            let options = match backend_options {
                Some(text) => text@,
                None => DEFAULT_BACKEND_OPTS@,
            };
            &&& r.0.deep_view() == owners_in(named_in(names))
            &&& r.1@ == settings_in(named_in(options)) + settings_in(named_in(names))
        }),
{
    let names = match backends {
        Some(text) => text,
        None => DEFAULT_BACKEND,
    };
    let options = match backend_options {
        Some(text) => text,
        None => DEFAULT_BACKEND_OPTS,
    };
    get_options(names, options)
}

} // verus!
