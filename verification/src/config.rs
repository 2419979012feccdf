//! The formatter registry: definitions of external formatting tools, the
//! merge of an opted-into built-in catalog with user-supplied custom
//! definitions, and first-match resolution from a file-type extension to the
//! definition responsible for it.

use crate::text::str_eq;
use vstd::prelude::*;
use vstd::string::StringExecFns;

verus! {

/// One external formatting tool: its command, templated arguments, the
/// file-type extensions it applies to, whether the document is fed to the
/// tool on standard input, and an optional cleanup command.
pub struct FormatterConfig {
    pub command: String,
    pub args: Vec<String>,
    pub filetypes: Vec<String>,
    pub to_stdin: bool,
    pub cleanup: Option<String>,
}

/// The built-in formatter names a deployment opted into.
pub struct Builtin {
    pub formatters: Vec<String>,
}

/// The user-supplied formatter definitions, each under its name.
pub struct Custom {
    pub formatters: Vec<(String, FormatterConfig)>,
}

/// A startup configuration failure: an opted-into built-in name that the
/// shipped catalog does not know.
#[derive(Debug)]
pub struct ConfigError {
    pub name: String,
}

impl ConfigError {
    /// A human-readable description of the failure.
    pub fn message(&self) -> (r: String)
        ensures
            r@ == "unknown built-in formatter: "@ + self.name@,
    {
        String::from_str("unknown built-in formatter: ").concat(self.name.as_str())
    }
}

/// True when `ext` is one of the file types of `d`.
pub open spec fn matches_ext(d: FormatterConfig, ext: Seq<char>) -> bool {
    exists|i: int| 0 <= i < d.filetypes@.len() && (#[trigger] d.filetypes@[i])@ == ext
}

/// The definitions of a sequence of named entries, in order.
pub open spec fn defs_of(entries: Seq<(String, FormatterConfig)>) -> Seq<FormatterConfig> {
    entries.map_values(|p: (String, FormatterConfig)| p.1)
}

/// The first definition in `defs` whose file-type set holds `ext`.
pub open spec fn first_match(defs: Seq<FormatterConfig>, ext: Seq<char>) -> Option<FormatterConfig>
    decreases defs.len(),
{
    if defs.len() == 0 {
        None
    } else if matches_ext(defs[0], ext) {
        Some(defs[0])
    } else {
        first_match(defs.drop_first(), ext)
    }
}

/// True when some entry of `names` holds the characters `name`.
pub open spec fn name_in(names: Seq<String>, name: Seq<char>) -> bool {
    exists|i: int| 0 <= i < names.len() && (#[trigger] names[i])@ == name
}

/// True when some catalog entry is named `name`.
pub open spec fn catalog_has_name(
    catalog: Seq<(String, FormatterConfig)>,
    name: Seq<char>,
) -> bool {
    exists|i: int| 0 <= i < catalog.len() && (#[trigger] catalog[i]).0@ == name
}

/// The predicate registration filters the catalog by: the entry's name was
/// opted into.
pub open spec fn opted(requested: Seq<String>) -> spec_fn((String, FormatterConfig)) -> bool {
    |p: (String, FormatterConfig)| name_in(requested, p.0@)
}

/// Every registered entry stems from the catalog under an opted-in name.
pub open spec fn opted_entries_only(
    requested: Seq<String>,
    catalog: Seq<(String, FormatterConfig)>,
    reg: Seq<(String, FormatterConfig)>,
) -> bool {
    forall|j: int|
        0 <= j < reg.len() ==> catalog.contains(#[trigger] reg[j]) && name_in(
            requested,
            reg[j].0@,
        )
}

/// Every catalog entry with an opted-in name was registered.
pub open spec fn opted_entries_all(
    requested: Seq<String>,
    catalog: Seq<(String, FormatterConfig)>,
    reg: Seq<(String, FormatterConfig)>,
) -> bool {
    forall|i: int|
        0 <= i < catalog.len() && name_in(requested, (#[trigger] catalog[i]).0@) ==> reg.contains(
            catalog[i],
        )
}

/// The resolved configuration: opted-into built-in definitions first, then
/// the custom definitions, scanned in that order by resolution.
pub struct Config {
    pub builtins: Builtin,
    pub customs: Custom,
    pub builtin_formatters: Vec<(String, FormatterConfig)>,
}

/// True when some entry of `names` holds the same characters as `name`.
fn name_in_exec(names: &Vec<String>, name: &str) -> (r: bool)
    ensures
        r == name_in(names@, name@),
{
    let n = names.len();
    let mut i: usize = 0;
    while i < n
        invariant
            n == names@.len(),
            0 <= i <= n,
            forall|k: int| 0 <= k < i ==> (#[trigger] names@[k])@ != name@,
        decreases n - i,
    {
        if str_eq(names[i].as_str(), name) {
            return true;
        }
        i += 1;
    }
    false
}

/// True when the catalog holds an entry named `name`.
fn catalog_has_name_exec(catalog: &Vec<(String, FormatterConfig)>, name: &str) -> (r: bool)
    ensures
        r == catalog_has_name(catalog@, name@),
{
    let n = catalog.len();
    let mut i: usize = 0;
    while i < n
        invariant
            n == catalog@.len(),
            0 <= i <= n,
            forall|k: int| 0 <= k < i ==> (#[trigger] catalog@[k]).0@ != name@,
        decreases n - i,
    {
        if str_eq(catalog[i].0.as_str(), name) {
            return true;
        }
        i += 1;
    }
    false
}

/// True when `ext` is one of the file types of `d`.
fn def_matches(d: &FormatterConfig, extension: &str) -> (b: bool)
    ensures
        b == matches_ext(*d, extension@),
{
    let n = d.filetypes.len();
    let mut i: usize = 0;
    while i < n
        invariant
            n == d.filetypes@.len(),
            0 <= i <= n,
            forall|k: int| 0 <= k < i ==> (#[trigger] d.filetypes@[k])@ != extension@,
        decreases n - i,
    {
        if str_eq(d.filetypes[i].as_str(), extension) {
            return true;
        }
        i += 1;
    }
    false
}

proof fn lemma_first_match_at(defs: Seq<FormatterConfig>, ext: Seq<char>, i: int)
    requires
        0 <= i < defs.len(),
        forall|k: int| 0 <= k < i ==> !matches_ext(#[trigger] defs[k], ext),
        matches_ext(defs[i], ext),
    ensures
        first_match(defs, ext) == Some(defs[i]),
    decreases i,
{
    if i == 0 {
    } else {
        let rest = defs.drop_first();
        assert(forall|k: int| 0 <= k < i - 1 ==> #[trigger] rest[k] == defs[k + 1]);
        lemma_first_match_at(rest, ext, i - 1);
    }
}

proof fn lemma_first_match_none(defs: Seq<FormatterConfig>, ext: Seq<char>)
    requires
        forall|k: int| 0 <= k < defs.len() ==> !matches_ext(#[trigger] defs[k], ext),
    ensures
        first_match(defs, ext) is None,
    decreases defs.len(),
{
    if defs.len() > 0 {
        lemma_first_match_none(defs.drop_first(), ext);
    }
}

proof fn lemma_first_match_is_element(defs: Seq<FormatterConfig>, ext: Seq<char>)
    requires
        first_match(defs, ext) is Some,
    ensures
        exists|i: int|
            0 <= i < defs.len() && #[trigger] defs[i] == first_match(defs, ext)->Some_0
                && matches_ext(defs[i], ext),
    decreases defs.len(),
{
    if matches_ext(defs[0], ext) {
        assert(defs[0] == first_match(defs, ext)->Some_0 && matches_ext(defs[0], ext));
    } else {
        let rest = defs.drop_first();
        lemma_first_match_is_element(rest, ext);
        let j = choose|j: int|
            0 <= j < rest.len() && #[trigger] rest[j] == first_match(rest, ext)->Some_0
                && matches_ext(rest[j], ext);
        assert(defs[j + 1] == first_match(defs, ext)->Some_0 && matches_ext(defs[j + 1], ext));
    }
}

/// Law: for every registered definition and extension in its file-type set,
/// resolution returns a definition whose file-type set holds that extension;
/// for an extension no registered definition claims, it returns none.
pub proof fn lemma_extension_resolution(defs: Seq<FormatterConfig>, ext: Seq<char>)
    ensures
        (exists|i: int| 0 <= i < defs.len() && matches_ext(#[trigger] defs[i], ext)) ==> (match first_match(
            defs,
            ext,
        ) {
            Some(d) => matches_ext(d, ext) && defs.contains(d),
            None => false,
        }),
        (forall|i: int| 0 <= i < defs.len() ==> !matches_ext(#[trigger] defs[i], ext))
            ==> first_match(defs, ext) is None,
{
    if exists|i: int| 0 <= i < defs.len() && matches_ext(#[trigger] defs[i], ext) {
        let i = choose|i: int| 0 <= i < defs.len() && matches_ext(#[trigger] defs[i], ext);
        lemma_first_match_some(defs, ext, i);
        lemma_first_match_is_element(defs, ext);
    }
    if forall|i: int| 0 <= i < defs.len() ==> !matches_ext(#[trigger] defs[i], ext) {
        lemma_first_match_none(defs, ext);
    }
}

proof fn lemma_first_match_some(defs: Seq<FormatterConfig>, ext: Seq<char>, i: int)
    requires
        0 <= i < defs.len(),
        matches_ext(defs[i], ext),
    ensures
        first_match(defs, ext) is Some,
    decreases defs.len(),
{
    if matches_ext(defs[0], ext) {
    } else {
        let rest = defs.drop_first();
        assert(rest[i - 1] == defs[i]);
        lemma_first_match_some(rest, ext, i - 1);
    }
}

proof fn lemma_filter_keeps_elements(
    s: Seq<(String, FormatterConfig)>,
    pred: spec_fn((String, FormatterConfig)) -> bool,
    j: int,
)
    requires
        0 <= j < s.filter(pred).len(),
    ensures
        s.contains(s.filter(pred)[j]),
    decreases s.len(),
{
    reveal(Seq::filter);
    let x = s.filter(pred)[j];
    if s.len() == 0 {
    } else {
        let sub = s.drop_last().filter(pred);
        if pred(s.last()) && j == sub.len() {
            assert(s[s.len() - 1] == x);
        } else {
            assert(x == sub[j]);
            lemma_filter_keeps_elements(s.drop_last(), pred, j);
            let k = choose|k: int| 0 <= k < s.drop_last().len() && s.drop_last()[k] == x;
            assert(s[k] == x);
        }
    }
}

/// Law: the entries that registration appends are exactly the catalog
/// entries whose name was opted into: each appended entry stems from the
/// catalog under an opted-in name, and every catalog entry with an opted-in
/// name is appended.
pub proof fn lemma_registration_filters(
    requested: Seq<String>,
    catalog: Seq<(String, FormatterConfig)>,
)
    ensures
        opted_entries_only(requested, catalog, catalog.filter(opted(requested))),
        opted_entries_all(requested, catalog, catalog.filter(opted(requested))),
{
    let p = opted(requested);
    let reg = catalog.filter(p);
    assert forall|j: int| 0 <= j < reg.len() implies catalog.contains(#[trigger] reg[j])
        && name_in(requested, reg[j].0@) by {
        catalog.lemma_filter_pred(p, j);
        lemma_filter_keeps_elements(catalog, p, j);
        assert(p(reg[j]));
    }
    assert forall|i: int|
        0 <= i < catalog.len() && name_in(requested, (#[trigger] catalog[i]).0@) implies reg
        .contains(catalog[i]) by {
        assert(p(catalog[i]));
        catalog.lemma_filter_contains(p, i);
    }
}

/// Law: a built-in name the configuration did not opt into never reaches
/// resolution: every definition resolution can return over a registered
/// configuration is a custom definition, or a catalog definition that was
/// registered under an opted-in name.
pub proof fn lemma_builtin_filtering(
    c: Config,
    catalog: Seq<(String, FormatterConfig)>,
    ext: Seq<char>,
)
    requires
        opted_entries_only(c.builtins.formatters@, catalog, c.spec_builtin_formatters()),
        first_match(c.merged_defs(), ext) is Some,
    ensures
        ({
            let d = first_match(c.merged_defs(), ext)->Some_0;
            defs_of(c.customs.formatters@).contains(d) || exists|i: int|
                0 <= i < catalog.len() && (#[trigger] catalog[i]).1 == d && name_in(
                    c.builtins.formatters@,
                    catalog[i].0@,
                )
        }),
{
    let reg = c.spec_builtin_formatters();
    let entries = reg + c.customs.formatters@;
    let defs = c.merged_defs();
    let d = first_match(defs, ext)->Some_0;
    lemma_first_match_is_element(defs, ext);
    let j = choose|j: int| 0 <= j < defs.len() && #[trigger] defs[j] == d && matches_ext(defs[j], ext);
    assert(defs[j] == entries[j].1);
    if j < reg.len() {
        let entry = reg[j];
        assert(catalog.contains(entry) && name_in(c.builtins.formatters@, entry.0@));
        let i = choose|i: int| 0 <= i < catalog.len() && catalog[i] == entry;
        assert((#[trigger] catalog[i]).1 == d && name_in(c.builtins.formatters@, catalog[i].0@));
    } else {
        let k = j - reg.len();
        assert(entries[j] == c.customs.formatters@[k]);
        assert(defs_of(c.customs.formatters@)[k] == d);
        assert(defs_of(c.customs.formatters@).contains(d));
    }
}

impl Config {
    /// The registered built-in entries, in the order resolution scans them.
    pub open spec fn spec_builtin_formatters(&self) -> Seq<(String, FormatterConfig)> {
        self.builtin_formatters@
    }

    /// Every definition resolution scans, built-ins first, then customs.
    pub open spec fn merged_defs(&self) -> Seq<FormatterConfig> {
        defs_of(self.spec_builtin_formatters() + self.customs.formatters@)
    }

    /// A configuration with no built-in definitions registered yet.
    pub fn new(builtins: Builtin, customs: Custom) -> (r: Config)
        ensures
            r.builtins == builtins,
            r.customs == customs,
            r.spec_builtin_formatters() == Seq::<(String, FormatterConfig)>::empty(),
    {
        Config { builtins, customs, builtin_formatters: Vec::new() }
    }

    /// Filters the shipped built-in catalog down to the names the
    /// configuration opted into and appends those entries to the ones
    /// already registered, in catalog order; fails when an opted-in name is
    /// not in the catalog.
    pub fn register_builtins(self, catalog: Vec<(String, FormatterConfig)>) -> (r: Result<
        Config,
        ConfigError,
    >)
        ensures
            match r {
                Ok(c) => {
                    &&& c.builtins == self.builtins
                    &&& c.customs == self.customs
                    &&& c.builtin_formatters@ == self.builtin_formatters@ + catalog@.filter(
                        opted(self.builtins.formatters@),
                    )
                    &&& forall|i: int|
                        0 <= i < self.builtins.formatters@.len() ==> catalog_has_name(
                            catalog@,
                            (#[trigger] self.builtins.formatters@[i])@,
                        )
                },
                Err(e) => !catalog_has_name(catalog@, e.name@) && name_in(
                    self.builtins.formatters@,
                    e.name@,
                ),
            },
    {
        let Config { builtins, customs, builtin_formatters: mut reg } = self;
        let nreq = builtins.formatters.len();
        let mut qi: usize = 0;
        while qi < nreq
            invariant
                builtins == self.builtins,
                nreq == builtins.formatters@.len(),
                0 <= qi <= nreq,
                forall|k: int|
                    0 <= k < qi ==> catalog_has_name(
                        catalog@,
                        (#[trigger] builtins.formatters@[k])@,
                    ),
        decreases nreq - qi,
        {
            if !catalog_has_name_exec(&catalog, builtins.formatters[qi].as_str()) {
                let name = builtins.formatters[qi].clone();
                return Err(ConfigError { name });
            }
            qi += 1;
        }
        let ghost requested = builtins.formatters@;
        let ghost full = catalog@;
        let ghost base = reg@;
        let mut rest = catalog;
        let ghost mut taken: int = 0;
        proof {
            reveal_with_fuel(Seq::filter, 1);
            assert(full.subrange(0, 0).filter(opted(requested)) =~= Seq::empty());
            assert(base + full.subrange(0, 0).filter(opted(requested)) =~= base);
        }
        while rest.len() > 0
            invariant
                requested == self.builtins.formatters@,
                base == self.builtin_formatters@,
                builtins == self.builtins,
                0 <= taken <= full.len(),
                rest@ == full.subrange(taken, full.len() as int),
                reg@ == base + full.subrange(0, taken).filter(opted(requested)),
            decreases rest.len(),
        {
            proof {
                assert(rest@[0] == full[taken]);
            }
            let ghost pre_reg = reg@;
            let keep = name_in_exec(&builtins.formatters, rest[0].0.as_str());
            let entry = rest.remove(0);
            if keep {
                reg.push(entry);
            }
            proof {
                let p = opted(requested);
                let pre = full.subrange(0, taken);
                let nxt = full.subrange(0, taken + 1);
                assert(nxt.drop_last() =~= pre);
                assert(nxt.last() == full[taken]);
                reveal_with_fuel(Seq::filter, 2);
                assert(keep == p(full[taken]));
                if keep {
                    assert(reg@ == pre_reg.push(entry));
                    assert(nxt.filter(p) =~= pre.filter(p).push(entry));
                    assert((base + pre.filter(p)).push(entry) =~= base + pre.filter(p).push(
                        entry,
                    ));
                } else {
                    assert(nxt.filter(p) =~= pre.filter(p));
                }
                taken = taken + 1;
                assert(rest@ =~= full.subrange(taken, full.len() as int));
            }
        }
        proof {
            assert(taken == full.len());
            assert(full.subrange(0, taken) =~= full);
        }
        Ok(Config { builtins, customs, builtin_formatters: reg })
    }

    /// Scans the registered built-in definitions, then the custom
    /// definitions, and returns the first whose file-type set holds
    /// `extension`; none when no definition claims it.
    pub fn get_formatter(&self, extension: &str) -> (r: Option<&FormatterConfig>)
        ensures
            match r {
                Some(f) => first_match(self.merged_defs(), extension@) == Some(*f),
                None => first_match(self.merged_defs(), extension@) is None,
            },
    {
        let ghost entries = self.spec_builtin_formatters() + self.customs.formatters@;
        let ghost defs = self.merged_defs();
        let bn = self.builtin_formatters.len();
        let mut i: usize = 0;
        while i < bn
            invariant
                bn == self.builtin_formatters@.len(),
                0 <= i <= bn,
                entries == self.spec_builtin_formatters() + self.customs.formatters@,
                defs == self.merged_defs(),
                bn <= defs.len(),
                forall|k: int| 0 <= k < i ==> !matches_ext(#[trigger] defs[k], extension@),
            decreases bn - i,
        {
            proof {
                assert(entries[i as int] == self.builtin_formatters@[i as int]);
                assert(defs[i as int] == entries[i as int].1);
            }
            if def_matches(&self.builtin_formatters[i].1, extension) {
                proof {
                    lemma_first_match_at(defs, extension@, i as int);
                }
                return Some(&self.builtin_formatters[i].1);
            }
            i += 1;
        }
        let cn = self.customs.formatters.len();
        let mut j: usize = 0;
        while j < cn
            invariant
                bn == self.builtin_formatters@.len(),
                cn == self.customs.formatters@.len(),
                0 <= j <= cn,
                entries == self.spec_builtin_formatters() + self.customs.formatters@,
                defs == self.merged_defs(),
                defs.len() == bn + cn,
                forall|k: int| 0 <= k < bn + j ==> !matches_ext(#[trigger] defs[k], extension@),
            decreases cn - j,
        {
            proof {
                assert(entries[bn + j] == self.customs.formatters@[j as int]);
                assert(defs[bn + j] == entries[bn + j].1);
            }
            if def_matches(&self.customs.formatters[j].1, extension) {
                proof {
                    lemma_first_match_at(defs, extension@, bn + j);
                }
                return Some(&self.customs.formatters[j].1);
            }
            j += 1;
        }
        proof {
            lemma_first_match_none(defs, extension@);
        }
        None
    }
}

} // verus!
