//! Severity filters: a fallback floor plus per-module overrides.
//!
//! A filter decides, for a severity rank and a module path, whether an entry
//! is admitted. Its model is a [`FilterModel`]; the functions of this module
//! are specified against that model.

use vstd::prelude::*;
use vstd::std_specs::iter::IteratorSpec;
use crate::level::{lemma_names, level_name, name_of, rank_of_name, rank_of_range};
use crate::log::LogEntry;
use crate::text::{
    chars_of, debug_quote, debug_quoted, find_char, index_of, is_trimmed, join, lacks,
    lemma_index_of_bounds, lemma_index_of_is, lemma_join_push, lemma_lower_all, lemma_split_join,
    lemma_split_pieces, lemma_trim, lower_all, lowered_chars, split, text_of, trim, trim_bounds,
};

verus! {

broadcast use vstd::string::group_string_axioms;

/// What a filter is: the floor that applies where no override does, and the
/// overrides, each a module path with the floor for that module and its
/// descendants.
pub struct FilterModel {
    pub fallback: u8,
    pub overrides: Seq<(Seq<char>, u8)>,
}

/// Whether the module `path` is `prefix` itself or lies below it: `path`
/// equals `prefix`, or continues it with `::`.
pub open spec fn covers_path(prefix: Seq<char>, path: Seq<char>) -> bool {
    path == prefix || (prefix + seq![':', ':']).is_prefix_of(path)
}

/// The highest floor among the overrides that cover `path`; `None` when no
/// override covers it.
pub open spec fn strictest(overrides: Seq<(Seq<char>, u8)>, path: Seq<char>) -> Option<u8>
    decreases overrides.len(),
{
    if overrides.len() == 0 {
        None
    } else {
        let before = strictest(overrides.drop_last(), path);
        let last = overrides.last();
        if covers_path(last.0, path) {
            match before {
                Some(floor) if floor > last.1 => Some(floor),
                _ => Some(last.1),
            }
        } else {
            before
        }
    }
}

/// Whether an override is one that parsing can produce: a valid rank, and a
/// module path as it was written, trimmed, without `,` and `=`.
pub open spec fn canonical_override(o: (Seq<char>, u8)) -> bool {
    &&& o.1 < 7
    &&& lacks(o.0, ',')
    &&& lacks(o.0, '=')
    &&& is_trimmed(o.0)
}

/// The text of one override in a filter specification.
pub open spec fn token_of(o: (Seq<char>, u8)) -> Seq<char> {
    o.0 + seq!['='] + name_of(o.1)
}

impl FilterModel {
    /// The filter that admits everything.
    pub open spec fn all() -> FilterModel {
        FilterModel { fallback: 0, overrides: Seq::empty() }
    }

    /// Whether this is a filter that parsing can produce.
    pub open spec fn canonical(self) -> bool {
        &&& self.fallback < 7
        &&& forall|i: int|
            0 <= i < self.overrides.len() ==> canonical_override(#[trigger] self.overrides[i])
    }

    /// The lowest rank admitted from the module `path`: the highest floor
    /// among the overrides covering `path`, or the fallback when none does.
    pub open spec fn floor(self, path: Seq<char>) -> u8 {
        match strictest(self.overrides, path) {
            Some(floor) => floor,
            None => self.fallback,
        }
    }

    /// Whether an entry of the given rank from the module `path` passes.
    pub open spec fn admits(self, rank: u8, path: Seq<char>) -> bool {
        rank >= self.floor(path)
    }

    /// The floor when `global` is consulted too: the lower of the two floors,
    /// so that `global` can admit more and never less.
    pub open spec fn floor_with(self, global: FilterModel, path: Seq<char>) -> u8 {
        if global.floor(path) < self.floor(path) {
            global.floor(path)
        } else {
            self.floor(path)
        }
    }

    /// Whether an entry passes when `global` is consulted too.
    pub open spec fn admits_with(self, global: FilterModel, rank: u8, path: Seq<char>) -> bool {
        rank >= self.floor_with(global, path)
    }

    /// The pieces of the filter's specification text: the fallback's name,
    /// then one `module=name` piece per override.
    pub open spec fn tokens(self) -> Seq<Seq<char>> {
        seq![name_of(self.fallback)] + self.overrides.map_values(
            |o: (Seq<char>, u8)| token_of(o),
        )
    }

    /// The filter's specification text: its pieces joined by commas.
    pub open spec fn render(self) -> Seq<char> {
        join(self.tokens(), ',')
    }
}

/// The effect of one piece of a specification on the filter read so far.
/// A piece with `=` adds an override for the module path in front of the
/// first `=`, kept as it is written; a piece without raises the fallback to
/// the named rank if that is higher. Severity names are read in any case.
/// Module paths and names are trimmed. An unknown name is an error that
/// carries the name in ASCII lower case.
pub open spec fn apply_token(token: Seq<char>, acc: FilterModel) -> Result<
    FilterModel,
    Seq<char>,
> {
    let i = index_of(token, '=');
    if 0 <= i < token.len() {
        let key = trim(token.take(i));
        let value = trim(token.skip(i + 1));
        match rank_of_name(lower_all(value)) {
            Some(rank) => Ok(
                FilterModel { fallback: acc.fallback, overrides: acc.overrides.push((key, rank)) },
            ),
            None => Err(lower_all(value)),
        }
    } else {
        let value = trim(token);
        match rank_of_name(lower_all(value)) {
            Some(rank) => Ok(
                FilterModel {
                    fallback: if rank > acc.fallback {
                        rank
                    } else {
                        acc.fallback
                    },
                    overrides: acc.overrides,
                },
            ),
            None => Err(lower_all(value)),
        }
    }
}

/// The pieces applied from left to right; the first unknown name ends the
/// reading.
pub open spec fn fold_tokens(tokens: Seq<Seq<char>>, acc: FilterModel) -> Result<
    FilterModel,
    Seq<char>,
>
    decreases tokens.len(),
{
    if tokens.len() == 0 {
        Ok(acc)
    } else {
        match apply_token(tokens[0], acc) {
            Ok(next) => fold_tokens(tokens.drop_first(), next),
            Err(name) => Err(name),
        }
    }
}

/// What a specification text means: the text is split at commas, and the
/// pieces are applied in order to the filter that admits everything. `Err`
/// carries the first name that is no severity.
pub open spec fn parse_spec(s: Seq<char>) -> Result<FilterModel, Seq<char>> {
    fold_tokens(split(s, ','), FilterModel::all())
}

/// The floor from the overrides is the maximum over the overrides that cover
/// the path: it is the floor of one of them, none of them has a higher one,
/// and it is absent exactly when none covers the path.
pub proof fn lemma_strictest_is_max(overrides: Seq<(Seq<char>, u8)>, path: Seq<char>)
    ensures
        strictest(overrides, path) is None <==> forall|i: int|
            0 <= i < overrides.len() ==> !covers_path(#[trigger] overrides[i].0, path),
        strictest(overrides, path) matches Some(floor) ==> {
            &&& exists|i: int|
                0 <= i < overrides.len() && covers_path(#[trigger] overrides[i].0, path)
                    && overrides[i].1 == floor
            &&& forall|i: int|
                0 <= i < overrides.len() && covers_path(#[trigger] overrides[i].0, path)
                    ==> overrides[i].1 <= floor
        },
    decreases overrides.len(),
{
    if overrides.len() > 0 {
        let front = overrides.drop_last();
        lemma_strictest_is_max(front, path);
        assert forall|i: int| 0 <= i < front.len() implies front[i] == overrides[i] by {}
        match strictest(overrides, path) {
            None => {
                assert forall|i: int| 0 <= i < overrides.len() implies !covers_path(
                    #[trigger] overrides[i].0,
                    path,
                ) by {}
            },
            Some(floor) => {
                assert forall|i: int|
                    0 <= i < overrides.len() && covers_path(
                        #[trigger] overrides[i].0,
                        path,
                    ) implies overrides[i].1 <= floor by {}
                assert(!(forall|i: int|
                    0 <= i < overrides.len() ==> !covers_path(#[trigger] overrides[i].0, path)));
            },
        }
    }
}

/// Where no override covers the path, the fallback alone decides: ranks
/// below it are refused, the fallback's rank and higher ranks are admitted.
pub proof fn lemma_fallback_decides(filter: FilterModel, path: Seq<char>, below: u8, fallback: u8)
    requires
        filter.fallback == fallback,
        forall|i: int|
            0 <= i < filter.overrides.len() ==> !covers_path(
                #[trigger] filter.overrides[i].0,
                path,
            ),
        below < fallback,
    ensures
        !filter.admits(below, path),
        forall|rank: u8| rank >= fallback ==> filter.admits(rank, path),
{
    lemma_strictest_is_max(filter.overrides, path);
}

/// Consulting a global filter can admit more and never less: what the
/// filter admits by itself it admits with any global filter, and what it
/// admits with one is admitted by itself or by the global filter.
pub proof fn lemma_global_only_widens(
    filter: FilterModel,
    global: FilterModel,
    rank: u8,
    path: Seq<char>,
)
    ensures
        filter.admits(rank, path) ==> filter.admits_with(global, rank, path),
        filter.admits_with(global, rank, path) <==> filter.admits(rank, path) || global.admits(
            rank,
            path,
        ),
{
}

/// An override applies to its own module and to everything below it.
pub proof fn lemma_override_covers_subtree(
    filter: FilterModel,
    prefix: Seq<char>,
    floor: u8,
    below: Seq<char>,
)
    requires
        filter.overrides == seq![(prefix, floor)],
    ensures
        filter.floor(prefix) == floor,
        filter.floor(prefix + seq![':', ':'] + below) == floor,
{
    let path = prefix + seq![':', ':'] + below;
    assert(strictest(filter.overrides.drop_last(), prefix) is None);
    assert(strictest(filter.overrides.drop_last(), path) is None);
}

/// In any filter, every override binds its module and everything below it:
/// nothing under the override's floor is admitted from there.
pub proof fn lemma_override_binds_subtree(filter: FilterModel, i: int, below: Seq<char>)
    requires
        0 <= i < filter.overrides.len(),
    ensures
        filter.floor(filter.overrides[i].0) >= filter.overrides[i].1,
        filter.floor(filter.overrides[i].0 + seq![':', ':'] + below) >= filter.overrides[i].1,
{
    let prefix = filter.overrides[i].0;
    let path = prefix + seq![':', ':'] + below;
    assert((prefix + seq![':', ':']).is_prefix_of(path));
    assert(covers_path(filter.overrides[i].0, prefix));
    assert(covers_path(filter.overrides[i].0, path));
    lemma_strictest_is_max(filter.overrides, prefix);
    lemma_strictest_is_max(filter.overrides, path);
}

/// An override leaves every other module to the fallback: a path that is
/// neither the override's module nor continues it with `::`.
pub proof fn lemma_override_spares_others(
    filter: FilterModel,
    prefix: Seq<char>,
    floor: u8,
    path: Seq<char>,
)
    requires
        filter.overrides == seq![(prefix, floor)],
        path != prefix,
        !(prefix + seq![':', ':']).is_prefix_of(path),
    ensures
        filter.floor(path) == filter.fallback,
{
    assert(strictest(filter.overrides.drop_last(), path) is None);
}

/// Reading the pieces of overrides adds exactly those overrides.
proof fn lemma_fold_overrides(overrides: Seq<(Seq<char>, u8)>, acc: FilterModel)
    requires
        forall|i: int| 0 <= i < overrides.len() ==> canonical_override(#[trigger] overrides[i]),
    ensures
        fold_tokens(overrides.map_values(|o: (Seq<char>, u8)| token_of(o)), acc) == Ok::<
            FilterModel,
            Seq<char>,
        >(FilterModel { fallback: acc.fallback, overrides: acc.overrides + overrides }),
    decreases overrides.len(),
{
    let pieces = overrides.map_values(|o: (Seq<char>, u8)| token_of(o));
    if overrides.len() > 0 {
        let first = overrides[0];
        let rest = overrides.drop_first();
        let key = first.0;
        let name = name_of(first.1);
        let token = token_of(first);
        lemma_names(first.1);
        lemma_lower_all(name);
        lemma_index_of_is(token, '=', key.len() as int);
        assert(token.take(key.len() as int) == key);
        assert(token.skip(key.len() as int + 1) == name);
        let next = FilterModel { fallback: acc.fallback, overrides: acc.overrides.push(first) };
        assert forall|i: int| 0 <= i < rest.len() implies canonical_override(#[trigger] rest[i]) by {}
        lemma_fold_overrides(rest, next);
        assert(pieces.drop_first() == rest.map_values(|o: (Seq<char>, u8)| token_of(o)));
        assert(next.overrides + rest == acc.overrides + overrides);
    }
}

/// The text of a canonical filter reads back as that filter.
pub proof fn lemma_render_reads_back(filter: FilterModel)
    requires
        filter.canonical(),
    ensures
        parse_spec(filter.render()) == Ok::<FilterModel, Seq<char>>(filter),
{
    let pieces = filter.tokens();
    let text = filter.render();
    let first = name_of(filter.fallback);
    let others = filter.overrides.map_values(|o: (Seq<char>, u8)| token_of(o));
    lemma_names(filter.fallback);
    lemma_lower_all(first);
    assert forall|k: int| 0 <= k < pieces.len() implies lacks(#[trigger] pieces[k], ',') by {
        if k > 0 {
            let o = filter.overrides[k - 1];
            lemma_names(o.1);
            let t = token_of(o);
            assert forall|j: int| 0 <= j < t.len() implies t[j] != ',' by {}
        } else {
            assert(pieces[0] == first);
        }
    }
    lemma_split_join(pieces, ',');
    lemma_index_of_is(first, '=', first.len() as int);
    let after_first = FilterModel { fallback: filter.fallback, overrides: Seq::empty() };
    assert(pieces.drop_first() == others);
    lemma_fold_overrides(filter.overrides, after_first);
}

/// Reading pieces that are free of commas keeps a canonical filter
/// canonical.
proof fn lemma_fold_canonical(tokens: Seq<Seq<char>>, acc: FilterModel)
    requires
        acc.canonical(),
        forall|k: int| 0 <= k < tokens.len() ==> lacks(#[trigger] tokens[k], ','),
    ensures
        fold_tokens(tokens, acc) matches Ok(filter) ==> filter.canonical(),
    decreases tokens.len(),
{
    if tokens.len() > 0 {
        let token = tokens[0];
        match apply_token(token, acc) {
            Ok(next) => {
                lemma_apply_canonical(token, acc);
                let rest = tokens.drop_first();
                assert forall|k: int| 0 <= k < rest.len() implies lacks(#[trigger] rest[k], ',') by {}
                lemma_fold_canonical(rest, next);
            },
            Err(_) => {},
        }
    }
}

/// One piece that is free of commas keeps a canonical filter canonical.
proof fn lemma_apply_canonical(token: Seq<char>, acc: FilterModel)
    requires
        acc.canonical(),
        lacks(token, ','),
    ensures
        apply_token(token, acc) matches Ok(filter) ==> filter.canonical(),
{
    let i = index_of(token, '=');
    lemma_index_of_bounds(token, '=');
    if 0 <= i < token.len() {
        let raw = token.take(i);
        assert forall|j: int| 0 <= j < raw.len() implies raw[j] != ',' by {}
        lemma_trim(raw, ',');
        lemma_trim(raw, '=');
        match apply_token(token, acc) {
            Ok(filter) => {
                assert forall|k: int| 0 <= k < filter.overrides.len() implies canonical_override(
                    #[trigger] filter.overrides[k],
                ) by {}
            },
            Err(_) => {},
        }
    }
}

/// Whatever parses, parses to a canonical filter.
pub proof fn lemma_parse_canonical(s: Seq<char>)
    ensures
        parse_spec(s) matches Ok(filter) ==> filter.canonical(),
{
    lemma_split_pieces(s, ',');
    lemma_fold_canonical(split(s, ','), FilterModel::all());
}

/// A specification that parses round-trips: the text of the filter it gives
/// parses to the same filter again.
pub proof fn lemma_round_trip(s: Seq<char>)
    requires
        parse_spec(s) is Ok,
    ensures
        parse_spec(parse_spec(s)->Ok_0.render()) == parse_spec(s),
{
    lemma_parse_canonical(s);
    lemma_render_reads_back(parse_spec(s)->Ok_0);
}

/// Reading a text is reading its first piece and then the text after the
/// first comma, if there is one.
proof fn lemma_fold_step(rest: Seq<char>, acc: FilterModel)
    ensures
        ({
            let i = index_of(rest, ',');
            fold_tokens(split(rest, ','), acc) == match apply_token(rest.take(i), acc) {
                Err(name) => Err::<FilterModel, Seq<char>>(name),
                Ok(next) => if i < rest.len() {
                    fold_tokens(split(rest.skip(i + 1), ','), next)
                } else {
                    Ok(next)
                },
            }
        }),
{
    let i = index_of(rest, ',');
    lemma_index_of_bounds(rest, ',');
    let pieces = split(rest, ',');
    if i < rest.len() {
        let tail = split(rest.skip(i + 1), ',');
        assert(pieces.drop_first() == tail);
    } else {
        assert(rest.take(i) == rest);
        match apply_token(rest, acc) {
            Ok(next) => {
                assert(fold_tokens(pieces.drop_first(), next) == Ok::<FilterModel, Seq<char>>(next));
            },
            Err(_) => {},
        }
    }
}

/// The overrides that a vector of `(module, rank)` pairs holds.
pub open spec fn overrides_of(modules: Seq<(String, u8)>) -> Seq<(Seq<char>, u8)> {
    modules.map_values(|m: (String, u8)| (m.0@, m.1))
}

/// Why a filter specification was refused.
#[derive(Debug)]
pub enum BadLevelFilter {
    /// A piece named no severity; the name is carried trimmed and in ASCII
    /// lower case.
    UnknownLevel(String),
}

/// A severity filter: a fallback floor and per-module overrides.
#[derive(Debug)]
pub struct LevelFilter {
    fallback: u8,
    modules: Vec<(String, u8)>,
}

impl View for LevelFilter {
    type V = FilterModel;

    closed spec fn view(&self) -> FilterModel {
        FilterModel { fallback: self.fallback, overrides: overrides_of(self.modules@) }
    }
}

impl Clone for LevelFilter {
    fn clone(&self) -> (r: Self)
        ensures
            r@ == self@,
    {
        proof {
            use_type_invariant(self);
        }
        let mut modules: Vec<(String, u8)> = Vec::new();
        let mut i: usize = 0;
        while i < self.modules.len()
            invariant
                i <= self.modules.len(),
                overrides_of(modules@) == overrides_of(self.modules@).take(i as int),
                self@.canonical(),
            decreases self.modules.len() - i,
        {
            let ghost before = modules@;
            let module = self.modules[i].0.clone();
            modules.push((module, self.modules[i].1));
            proof {
                let all = overrides_of(self.modules@);
                assert(overrides_of(modules@) == overrides_of(before).push(all[i as int]));
            }
            i += 1;
        }
        proof {
            assert(overrides_of(self.modules@).take(i as int) == overrides_of(self.modules@));
        }
        LevelFilter { fallback: self.fallback, modules }
    }
}

impl std::str::FromStr for LevelFilter {
    type Err = BadLevelFilter;

    /// Reads a filter specification: a comma-separated list of pieces, each
    /// a severity name, which raises the fallback, or `module=name`, which
    /// adds an override. Severity names are read in any case; module paths
    /// are kept as they are written. White space around pieces, module paths
    /// and names is dropped. Fails on the first name that is no severity.
    fn from_str(s: &str) -> (r: Result<LevelFilter, BadLevelFilter>)
        ensures
            match parse_spec(s@) {
                Ok(filter) => r matches Ok(f) && f@ == filter,
                Err(name) => r matches Err(BadLevelFilter::UnknownLevel(n)) && n@ == name,
            },
    {
        let v = chars_of(s);
        let folded = lowered_chars(s);
        let n = v.len();
        let mut fallback: u8 = 0;
        let mut modules: Vec<(String, u8)> = Vec::new();
        let mut start: usize = 0;
        proof {
            assert(v@.skip(0) == v@);
            assert(overrides_of(modules@) == Seq::<(Seq<char>, u8)>::empty());
        }
        loop
            invariant
                n == v.len(),
                start <= n,
                v@ == s@,
                folded@ == lower_all(v@),
                (FilterModel { fallback, overrides: overrides_of(modules@) }).canonical(),
                parse_spec(s@) == fold_tokens(
                    split(v@.skip(start as int), ','),
                    FilterModel { fallback, overrides: overrides_of(modules@) },
                ),
            decreases n - start,
        {
            let ghost rest = v@.skip(start as int);
            let ghost acc = FilterModel { fallback, overrides: overrides_of(modules@) };
            let end = find_char(&v, start, n, ',');
            let ghost token = v@.subrange(start as int, end as int);
            proof {
                lemma_index_of_bounds(rest, ',');
                lemma_fold_step(rest, acc);
                assert(rest.take(end - start) == token);
                lemma_apply_canonical(token, acc);
                if end < n {
                    assert(rest.skip(end - start + 1) == v@.skip(end + 1));
                }
            }
            let eq = find_char(&v, start, end, '=');
            if eq < end {
                let key_at = trim_bounds(&v, start, eq);
                let name_at = trim_bounds(&v, eq + 1, end);
                proof {
                    assert(token.take(eq - start) == v@.subrange(start as int, eq as int));
                    assert(token.skip(eq - start + 1) == v@.subrange(eq + 1, end as int));
                }
                proof {
                    assert(folded@.subrange(name_at.0 as int, name_at.1 as int) == lower_all(
                        v@.subrange(name_at.0 as int, name_at.1 as int),
                    ));
                }
                match rank_of_range(&folded, name_at.0, name_at.1) {
                    None => {
                        let name = text_of(&folded, name_at.0, name_at.1);
                        return Err(BadLevelFilter::UnknownLevel(name));
                    },
                    Some(rank) => {
                        let key = text_of(&v, key_at.0, key_at.1);
                        let ghost before = modules@;
                        modules.push((key, rank));
                        proof {
                            assert(overrides_of(modules@) == overrides_of(before).push(
                                (key@, rank),
                            ));
                        }
                    },
                }
            } else {
                let name_at = trim_bounds(&v, start, end);
                proof {
                    assert(folded@.subrange(name_at.0 as int, name_at.1 as int) == lower_all(
                        v@.subrange(name_at.0 as int, name_at.1 as int),
                    ));
                }
                match rank_of_range(&folded, name_at.0, name_at.1) {
                    None => {
                        let name = text_of(&folded, name_at.0, name_at.1);
                        return Err(BadLevelFilter::UnknownLevel(name));
                    },
                    Some(rank) => {
                        if rank > fallback {
                            fallback = rank;
                        }
                    },
                }
            }
            if end == n {
                return Ok(LevelFilter { fallback, modules });
            }
            start = end + 1;
        }
    }
}

impl LevelFilter {
    /// Every filter is one that parsing can produce.
    #[verifier::type_invariant]
    spec fn well_formed(&self) -> bool {
        self@.canonical()
    }

    /// The filter that admits everything: the floor is the lowest severity
    /// and there are no overrides.
    pub fn all() -> (r: LevelFilter)
        ensures
            r@ == FilterModel::all(),
    {
        let r = LevelFilter { fallback: 0, modules: Vec::new() };
        assert(r@.overrides == Seq::<(Seq<char>, u8)>::empty());
        r
    }

    /// The filter's specification text: the fallback's name, then
    /// `,module=name` for each override. Reading it gives the filter back.
    pub fn to_string(&self) -> (r: String)
        ensures
            r@ == self@.render(),
            parse_spec(r@) == Ok::<FilterModel, Seq<char>>(self@),
    {
        proof {
            use_type_invariant(self);
            lemma_render_reads_back(self@);
            reveal_strlit(",");
            reveal_strlit("=");
        }
        let ghost pieces = self@.tokens();
        let mut out = String::from_str(level_name(self.fallback));
        let mut i: usize = 0;
        while i < self.modules.len()
            invariant
                i <= self.modules.len(),
                self@.canonical(),
                pieces == self@.tokens(),
                pieces.len() == self.modules.len() + 1,
                ","@ == seq![','],
                "="@ == seq!['='],
                out@ == join(pieces.take(i + 1), ','),
            decreases self.modules.len() - i,
        {
            let level = self.modules[i].1;
            proof {
                lemma_join_push(pieces.take(i + 1), pieces[i + 1], ',');
                assert(pieces.take(i + 1).push(pieces[i + 1]) == pieces.take(i + 2));
            }
            out.append(",");
            out.append(self.modules[i].0.as_str());
            out.append("=");
            out.append(level_name(level));
            i += 1;
        }
        proof {
            assert(pieces.take(pieces.len() as int) == pieces);
        }
        out
    }

    /// The floor that the overrides set for `module`: the highest floor among
    /// the overrides whose path is `module` or an ancestor of it, `None`
    /// when there is none.
    pub fn match_min_level(&self, module: &str) -> (r: Option<u8>)
        ensures
            r == strictest(self@.overrides, module@),
            r is Some ==> r->0 < 7,
    {
        proof {
            use_type_invariant(self);
        }
        let mut min_level: Option<u8> = None;
        let mut i: usize = 0;
        while i < self.modules.len()
            invariant
                i <= self.modules.len(),
                self@.canonical(),
                min_level == strictest(self@.overrides.take(i as int), module@),
                min_level is Some ==> min_level->0 < 7,
            decreases self.modules.len() - i,
        {
            proof {
                let upto = self@.overrides.take(i + 1);
                assert(upto.drop_last() == self@.overrides.take(i as int));
            }
            if path_covered(self.modules[i].0.as_str(), module) {
                let floor = self.modules[i].1;
                min_level = match min_level {
                    Some(before) if before > floor => Some(before),
                    _ => Some(floor),
                };
            }
            i += 1;
        }
        proof {
            assert(self@.overrides.take(i as int) == self@.overrides);
        }
        min_level
    }

    /// The lowest rank that this filter admits from `module`.
    pub fn floor(&self, module: &str) -> (r: u8)
        ensures
            r == self@.floor(module@),
            r < 7,
    {
        proof {
            use_type_invariant(self);
        }
        match self.match_min_level(module) {
            Some(floor) => floor,
            None => self.fallback,
        }
    }

    /// Whether the filter admits the entry, with `global` consulted too: the
    /// entry's rank is at least the lower of the two filters' floors for the
    /// entry's module.
    pub fn matched_by(&self, entry: &LogEntry, global: &LevelFilterContainer) -> (r: bool)
        ensures
            r == self@.admits_with(global@, entry@.rank, entry@.module),
    {
        let own = self.floor(entry.module());
        let wide = global.floor(entry.module());
        let floor = if wide < own {
            wide
        } else {
            own
        };
        entry.level_index() >= floor
    }

    /// Whether the filter by itself admits the entry: the entry's rank is at
    /// least the filter's floor for the entry's module.
    pub fn matched_by_selfonly(&self, entry: &LogEntry) -> (r: bool)
        ensures
            r == self@.admits(entry@.rank, entry@.module),
    {
        entry.level_index() >= self.floor(entry.module())
    }
}

/// Whether the module `path` is `prefix` or lies below it.
pub fn path_covered(prefix: &str, path: &str) -> (r: bool)
    ensures
        r == covers_path(prefix@, path@),
{
    let ghost marked = prefix@ + seq![':', ':'];
    let mut p = prefix.chars();
    let mut q = path.chars();
    let ghost mut i: int = 0;
    loop
        invariant
            p.obeys_prophetic_iter_laws(),
            q.obeys_prophetic_iter_laws(),
            p.decrease() is Some,
            0 <= i <= prefix@.len(),
            i <= path@.len(),
            p.remaining() == prefix@.skip(i),
            q.remaining() == path@.skip(i),
            path@.take(i) == prefix@.take(i),
            marked == prefix@ + seq![':', ':'],
        ensures
            i == prefix@.len(),
            i <= path@.len(),
            q.obeys_prophetic_iter_laws(),
            q.remaining() == path@.skip(i),
            path@.take(i) == prefix@.take(i),
        decreases p.decrease()->0,
    {
        match p.next() {
            None => {
                break;
            },
            Some(a) => {
                match q.next() {
                    None => {
                        return false;
                    },
                    Some(b) => {
                        if a != b {
                            proof {
                                if marked.is_prefix_of(path@) {
                                    assert(path@.subrange(0, marked.len() as int)[i] == marked[i]);
                                }
                            }
                            return false;
                        }
                        proof {
                            i = i + 1;
                        }
                    },
                }
            },
        }
    }
    match q.next() {
        None => true,
        Some(first) => {
            if first != ':' {
                false
            } else {
                match q.next() {
                    None => false,
                    Some(second) => {
                        proof {
                            if second == ':' {
                                assert(path@.subrange(0, marked.len() as int) =~= marked) by {
                                    assert forall|k: int| 0 <= k < i implies path@[k]
                                        == marked[k] by {}
                                }
                            }
                        }
                        second == ':'
                    },
                }
            }
        },
    }
}

impl BadLevelFilter {
    /// The name that was refused.
    pub open spec fn name(self) -> Seq<char> {
        match self {
            BadLevelFilter::UnknownLevel(name) => name@,
        }
    }

    /// The message for a refused name, given the name in quoted form.
    pub fn message_for(quoted: &str) -> (r: String)
        ensures
            r@ == "unknown log level "@ + quoted@,
    {
        let mut out = String::from_str("unknown log level ");
        out.append(quoted);
        out
    }

    /// The error as a message: `unknown log level` and the refused name,
    /// quoted as `Debug` quotes a string.
    pub fn to_string(&self) -> (r: String)
        ensures
            r@ == "unknown log level "@ + debug_quoted(self.name()),
    {
        match self {
            BadLevelFilter::UnknownLevel(name) => {
                let quoted = debug_quote(name.as_str());
                Self::message_for(quoted.as_str())
            },
        }
    }
}

/// The place of the filter that all targets may consult: it holds one filter,
/// which can be replaced.
#[derive(Debug)]
pub struct LevelFilterContainer {
    filter: LevelFilter,
}

impl View for LevelFilterContainer {
    type V = FilterModel;

    closed spec fn view(&self) -> FilterModel {
        self.filter@
    }
}

impl LevelFilterContainer {
    /// A container that holds `filter`.
    pub fn new(filter: LevelFilter) -> (r: LevelFilterContainer)
        ensures
            r@ == filter@,
    {
        LevelFilterContainer { filter }
    }

    /// Replaces the filter held.
    pub fn set(&mut self, level: LevelFilter)
        ensures
            final(self)@ == level@,
    {
        self.filter = level;
    }

    /// The lowest rank that the filter held admits from `module`.
    pub fn floor(&self, module: &str) -> (r: u8)
        ensures
            r == self@.floor(module@),
            r < 7,
    {
        self.filter.floor(module)
    }

    /// Whether the filter held admits the entry by itself.
    pub fn matched_by(&self, entry: &LogEntry) -> (r: bool)
        ensures
            r == self@.admits(entry@.rank, entry@.module),
    {
        self.filter.matched_by_selfonly(entry)
    }
}

} // verus!
