//! Which output of the compositor a monitor of the display is.
use vstd::prelude::*;

use crate::names;
use crate::names::NameMap;
use crate::niri::model::OutputInfo;
use crate::text;

verus! {

/// By how many pixels the two views of a position may differ.
pub const GEOMETRY_TOLERANCE_PX: i32 = 30;

/// By how many millimetres the two views of a size may differ.
pub const PHYSICAL_TOLERANCE_MM: i32 = 10;

/// What the display tells of a monitor.
#[derive(Debug, Clone, PartialEq, Eq)]
pub struct MonitorFingerprint {
    pub x: i32,
    pub y: i32,
    pub make: Option<String>,
    pub model: Option<String>,
    pub w_mm: i32,
    pub h_mm: i32,
}

/// `a` and `b` are at most `tolerance` apart.
pub open spec fn near(a: int, b: int, tolerance: int) -> bool {
    -tolerance <= a - b <= tolerance
}

/// Where an output stands when its position is counted in its own pixels: what
/// `scaled` says, or its logical position where it says nothing.
pub open spec fn scaled_position(
    name: Seq<char>,
    x: i32,
    y: i32,
    scaled: Map<Seq<char>, (i32, i32)>,
) -> (i32, i32) {
    if scaled.dom().contains(name) {
        scaled[name]
    } else {
        (x, y)
    }
}

/// The monitor stands where the output stands, by its logical position or by its
/// scaled one.
pub open spec fn same_place(
    fp: MonitorFingerprint,
    name: Seq<char>,
    out: OutputInfo,
    scaled: Map<Seq<char>, (i32, i32)>,
) -> bool {
    match out.logical {
        Some(l) => {
            let s = scaled_position(name, l.x, l.y, scaled);
            ||| near(fp.x as int, l.x as int, GEOMETRY_TOLERANCE_PX as int) && near(
                fp.y as int,
                l.y as int,
                GEOMETRY_TOLERANCE_PX as int,
            )
            ||| near(fp.x as int, s.0 as int, GEOMETRY_TOLERANCE_PX as int) && near(
                fp.y as int,
                s.1 as int,
                GEOMETRY_TOLERANCE_PX as int,
            )
        },
        None => false,
    }
}

/// The monitor tells its size, and the output has it.
pub open spec fn same_size(fp: MonitorFingerprint, out: OutputInfo) -> bool {
    match out.physical_size {
        Some(p) => fp.w_mm > 0 && fp.h_mm > 0 && near(
            fp.w_mm as int,
            p.0 as int,
            PHYSICAL_TOLERANCE_MM as int,
        ) && near(fp.h_mm as int, p.1 as int, PHYSICAL_TOLERANCE_MM as int),
        None => false,
    }
}

/// Of two names in lower case one holds the other; the second is not empty.
pub open spec fn alike(monitor_low: Seq<char>, output_low: Seq<char>) -> bool {
    output_low.len() > 0 && (text::has(monitor_low, output_low) || text::has(output_low, monitor_low))
}

/// A name that the display gives and one that the compositor gives are alike but
/// for case.
pub open spec fn same_label(monitor: Option<String>, output: Option<String>) -> bool {
    match (monitor, output) {
        (Some(m), Some(o)) => alike(text::lowercase(m@), text::lowercase(o@)),
        _ => false,
    }
}

/// Some output satisfies `ok`.
pub open spec fn any(m: Map<Seq<char>, OutputInfo>, ok: spec_fn(Seq<char>) -> bool) -> bool {
    exists|k: Seq<char>| #[trigger] m.dom().contains(k) && ok(k)
}

/// `k` is the one output that satisfies `ok` and whose name sorts before those of
/// all others that do.
pub open spec fn is_first(
    m: Map<Seq<char>, OutputInfo>,
    ok: spec_fn(Seq<char>) -> bool,
    k: Seq<char>,
) -> bool {
    m.dom().contains(k) && ok(k) && forall|j: Seq<char>| #[trigger]
        m.dom().contains(j) && ok(j) && j != k ==> text::precedes(k, j)
}

/// The output that satisfies `ok` and whose name sorts first.
pub open spec fn first(m: Map<Seq<char>, OutputInfo>, ok: spec_fn(Seq<char>) -> bool) -> Option<Seq<char>> {
    if any(m, ok) {
        Some(choose|k: Seq<char>| is_first(m, ok, k))
    } else {
        None
    }
}

/// Exactly one output satisfies `ok`.
pub open spec fn only_one(m: Map<Seq<char>, OutputInfo>, ok: spec_fn(Seq<char>) -> bool) -> bool {
    exists|k: Seq<char>| #[trigger]
        m.dom().contains(k) && ok(k) && forall|j: Seq<char>| #[trigger]
            m.dom().contains(j) && ok(j) ==> j == k
}

/// The outputs that stand where the monitor stands.
pub open spec fn here(
    fp: MonitorFingerprint,
    m: Map<Seq<char>, OutputInfo>,
    scaled: Map<Seq<char>, (i32, i32)>,
) -> spec_fn(Seq<char>) -> bool {
    |k: Seq<char>| same_place(fp, k, m[k], scaled)
}

/// The outputs among which further steps decide: those that share the monitor's
/// place, or all where none does.
pub open spec fn in_pool(
    fp: MonitorFingerprint,
    m: Map<Seq<char>, OutputInfo>,
    scaled: Map<Seq<char>, (i32, i32)>,
    k: Seq<char>,
) -> bool {
    any(m, here(fp, m, scaled)) ==> same_place(fp, k, m[k], scaled)
}

/// The outputs of that pool that have the monitor's size.
pub open spec fn by_size(
    fp: MonitorFingerprint,
    m: Map<Seq<char>, OutputInfo>,
    scaled: Map<Seq<char>, (i32, i32)>,
) -> spec_fn(Seq<char>) -> bool {
    |k: Seq<char>| in_pool(fp, m, scaled, k) && same_size(fp, m[k])
}

/// The outputs of that pool that have the monitor's make and model.
pub open spec fn by_make(
    fp: MonitorFingerprint,
    m: Map<Seq<char>, OutputInfo>,
    scaled: Map<Seq<char>, (i32, i32)>,
) -> spec_fn(Seq<char>) -> bool {
    |k: Seq<char>|
        in_pool(fp, m, scaled, k) && same_label(fp.make, m[k].make) && same_label(fp.model, m[k].model)
}

/// The outputs of that pool that have the monitor's model.
pub open spec fn by_model(
    fp: MonitorFingerprint,
    m: Map<Seq<char>, OutputInfo>,
    scaled: Map<Seq<char>, (i32, i32)>,
) -> spec_fn(Seq<char>) -> bool {
    |k: Seq<char>| in_pool(fp, m, scaled, k) && same_label(fp.model, m[k].model)
}

/// All outputs.
pub open spec fn all() -> spec_fn(Seq<char>) -> bool {
    |k: Seq<char>| true
}

/// The steps by which an output is found, the first that finds one deciding. A
/// place that only one output has decides by itself. Where several share it, or
/// none has it, the size decides, then make and model, then the model alone,
/// among those that share the place or among all. Then comes the only output of a
/// system with one monitor, and last the first by name of those that share the
/// place.
pub open spec fn matched(
    fp: MonitorFingerprint,
    m: Map<Seq<char>, OutputInfo>,
    scaled: Map<Seq<char>, (i32, i32)>,
    single_monitor_system: bool,
) -> Option<Seq<char>> {
    let place = here(fp, m, scaled);
    if only_one(m, place) {
        first(m, place)
    } else if any(m, by_size(fp, m, scaled)) {
        first(m, by_size(fp, m, scaled))
    } else if any(m, by_make(fp, m, scaled)) {
        first(m, by_make(fp, m, scaled))
    } else if any(m, by_model(fp, m, scaled)) {
        first(m, by_model(fp, m, scaled))
    } else if single_monitor_system && only_one(m, all()) {
        first(m, all())
    } else {
        first(m, place)
    }
}

/// Only one output is the first.
pub proof fn lemma_first_unique(
    m: Map<Seq<char>, OutputInfo>,
    ok: spec_fn(Seq<char>) -> bool,
    k: Seq<char>,
)
    requires
        is_first(m, ok, k),
    ensures
        first(m, ok) == Some(k),
{
    assert(m.dom().contains(k) && ok(k));
    assert(any(m, ok));
    let c = choose|c: Seq<char>| is_first(m, ok, c);
    assert(is_first(m, ok, c));
    if c != k {
        text::lemma_precedes_one_way(c, k);
    }
}

/// A monitor is matched to an output that there is, whatever else is known of it.
pub proof fn law_match_is_an_output(
    fp: MonitorFingerprint,
    outputs: NameMap<OutputInfo>,
    scaled: Map<Seq<char>, (i32, i32)>,
    single_monitor_system: bool,
)
    requires
        names::distinct(outputs.entries()),
    ensures
        matched(fp, outputs@, scaled, single_monitor_system) matches Some(k) ==> outputs@.dom().contains(k),
{
    let m = outputs@;
    lemma_first_exists(outputs.entries(), here(fp, m, scaled), 0);
    lemma_first_exists(outputs.entries(), by_size(fp, m, scaled), 0);
    lemma_first_exists(outputs.entries(), by_make(fp, m, scaled), 0);
    lemma_first_exists(outputs.entries(), by_model(fp, m, scaled), 0);
    lemma_first_exists(outputs.entries(), all(), 0);
}

/// The first output, by name, of those that satisfy `ok` among the entries from
/// `i` on.
pub open spec fn is_first_from(
    e: Seq<(String, OutputInfo)>,
    ok: spec_fn(Seq<char>) -> bool,
    i: int,
    k: int,
) -> bool {
    i <= k < e.len() && ok(e[k].0@) && forall|j: int|
        i <= j < e.len() && ok((#[trigger] e[j]).0@) && j != k ==> text::precedes(e[k].0@, e[j].0@)
}

/// Where some output satisfies `ok`, one of them is the first by name.
proof fn lemma_first_exists(e: Seq<(String, OutputInfo)>, ok: spec_fn(Seq<char>) -> bool, i: int)
    requires
        0 <= i <= e.len(),
        names::distinct(e),
    ensures
        (exists|j: int| i <= j < e.len() && ok((#[trigger] e[j]).0@)) ==> exists|k: int|
            is_first_from(e, ok, i, k),
        i == 0 && any(names::map_of(e), ok) ==> is_first(
            names::map_of(e),
            ok,
            first(names::map_of(e), ok)->0,
        ),
    decreases e.len() - i,
{
    let next = i + 1;
    if i < e.len() {
        lemma_first_exists(e, ok, next);
        if exists|j: int| i <= j < e.len() && ok((#[trigger] e[j]).0@) {
            let j0 = choose|j: int| i <= j < e.len() && ok((#[trigger] e[j]).0@);
            if ok(e[i].0@) {
                if exists|j: int| i + 1 <= j < e.len() && ok((#[trigger] e[j]).0@) {
                    let k = choose|k: int| is_first_from(e, ok, next, k);
                    text::lemma_precedes_total(e[i].0@, e[k].0@);
                    assert(e[i].0@ != e[k].0@);
                    if text::precedes(e[i].0@, e[k].0@) {
                        assert forall|j: int|
                            i <= j < e.len() && ok((#[trigger] e[j]).0@) && j != i implies text::precedes(
                            e[i].0@,
                            e[j].0@,
                        ) by {
                            if j != k {
                                text::lemma_precedes_carries(e[i].0@, e[k].0@, e[j].0@);
                            }
                        }
                        assert(is_first_from(e, ok, i, i));
                    } else {
                        assert(is_first_from(e, ok, i, k));
                    }
                } else {
                    assert(is_first_from(e, ok, i, i));
                }
            } else {
                assert(i + 1 <= j0);
                let k = choose|k: int| is_first_from(e, ok, next, k);
                assert(is_first_from(e, ok, i, k));
            }
        }
    }
    if i == 0 && any(names::map_of(e), ok) {
        let m = names::map_of(e);
        let c = choose|c: Seq<char>| #[trigger] m.dom().contains(c) && ok(c);
        names::lemma_named(e, c);
        assert(ok(e[names::position(e, c)].0@));
        let k = choose|k: int| is_first_from(e, ok, 0, k);
        lemma_first_in_map(e, ok, k);
    }
}

/// The first among the entries is the first of the map.
proof fn lemma_first_in_map(e: Seq<(String, OutputInfo)>, ok: spec_fn(Seq<char>) -> bool, k: int)
    requires
        names::distinct(e),
        is_first_from(e, ok, 0, k),
    ensures
        is_first(names::map_of(e), ok, e[k].0@),
        first(names::map_of(e), ok) == Some(e[k].0@),
{
    let m = names::map_of(e);
    names::lemma_entry(e, k);
    assert forall|j: Seq<char>| #[trigger] m.dom().contains(j) && ok(j) && j != e[k].0@ implies text::precedes(
        e[k].0@,
        j,
    ) by {
        names::lemma_named(e, j);
        let p = names::position(e, j);
        assert(ok(e[p].0@));
    }
    lemma_first_unique(m, ok, e[k].0@);
}

fn abs_near(a: i32, b: i32, tolerance: i32) -> (r: bool)
    ensures
        r == near(a as int, b as int, tolerance as int),
{
    let d: i64 = a as i64 - b as i64;
    -(tolerance as i64) <= d && d <= tolerance as i64
}

/// Whether of two names in lower case one holds the other.
pub fn names_alike(monitor_low: &str, output_low: &str) -> (r: bool)
    ensures
        r == alike(monitor_low@, output_low@),
{
    !output_low.is_empty() && (text::contains(monitor_low, output_low) || text::contains(
        output_low,
        monitor_low,
    ))
}

fn labels_match(monitor: &Option<String>, output: &Option<String>) -> (r: bool)
    ensures
        r == same_label(*monitor, *output),
{
    match (monitor, output) {
        (Some(m), Some(o)) => {
            names_alike(
                text::to_lowercase(m.as_str()).as_str(),
                text::to_lowercase(o.as_str()).as_str(),
            )
        },
        _ => false,
    }
}

fn is_here(
    fp: &MonitorFingerprint,
    name: &String,
    out: &OutputInfo,
    scaled: &NameMap<(i32, i32)>,
) -> (r: bool)
    ensures
        r == same_place(*fp, name@, *out, scaled@),
{
    match &out.logical {
        Some(l) => {
            let s: (i32, i32) = match scaled.get(name.as_str()) {
                Some(p) => *p,
                None => (l.x, l.y),
            };
            (abs_near(fp.x, l.x, GEOMETRY_TOLERANCE_PX) && abs_near(fp.y, l.y, GEOMETRY_TOLERANCE_PX)) || (
            abs_near(fp.x, s.0, GEOMETRY_TOLERANCE_PX) && abs_near(fp.y, s.1, GEOMETRY_TOLERANCE_PX))
        },
        None => false,
    }
}

fn has_size(fp: &MonitorFingerprint, out: &OutputInfo) -> (r: bool)
    ensures
        r == same_size(*fp, *out),
{
    match out.physical_size {
        Some(p) => fp.w_mm > 0 && fp.h_mm > 0 && abs_near(fp.w_mm, p.0, PHYSICAL_TOLERANCE_MM) && abs_near(
            fp.h_mm,
            p.1,
            PHYSICAL_TOLERANCE_MM,
        ),
        None => false,
    }
}

/// The position of the first entry by name of those that `keep` marks.
pub(crate) fn first_marked(
    outputs: &NameMap<OutputInfo>,
    keep: &Vec<bool>,
    Ghost(ok): Ghost<spec_fn(Seq<char>) -> bool>,
) -> (r: Option<usize>)
    requires
        marked(outputs.entries(), keep@, ok),
    ensures
        match r {
            Some(k) => k < outputs.entries().len() && any(outputs@, ok) && first(outputs@, ok) == Some(
                outputs.entries()[k as int].0@,
            ) && keep@[k as int],
            None => !any(outputs@, ok) && first(outputs@, ok) is None,
        },
{
    let n: usize = outputs.len();
    let ghost e: Seq<(String, OutputInfo)> = outputs.entries();
    let mut best: Option<usize> = None;
    let mut i: usize = 0;
    while i < n
        invariant
            n == e.len(),
            e == outputs.entries(),
            names::distinct(e),
            keep@.len() == n,
            i <= n,
            forall|j: int| 0 <= j < keep@.len() ==> #[trigger] keep@[j] == ok(e[j].0@),
            match best {
                Some(b) => b < i && ok(e[b as int].0@) && forall|j: int|
                    0 <= j < i && ok((#[trigger] e[j]).0@) && j != b ==> text::precedes(
                        e[b as int].0@,
                        e[j].0@,
                    ),
                None => forall|j: int| 0 <= j < i ==> !ok((#[trigger] e[j]).0@),
            },
        decreases n - i,
    {
        if keep[i] {
            match best {
                Some(b) => {
                    assert(e[b as int].0@ != e[i as int].0@);
                    if text::sorts_before(outputs.name_at(i).as_str(), outputs.name_at(b).as_str()) {
                        proof {
                            assert forall|j: int|
                                0 <= j < i + 1 && ok((#[trigger] e[j]).0@) && j != i implies text::precedes(
                                e[i as int].0@,
                                e[j].0@,
                            ) by {
                                if j != b {
                                    text::lemma_precedes_carries(
                                        e[i as int].0@,
                                        e[b as int].0@,
                                        e[j].0@,
                                    );
                                }
                            }
                        }
                        best = Some(i);
                    } else {
                        proof {
                            text::lemma_precedes_total(e[i as int].0@, e[b as int].0@);
                        }
                    }
                },
                None => {
                    best = Some(i);
                },
            }
        }
        i = i + 1;
    }
    proof {
        match best {
            Some(b) => {
                lemma_first_in_map(e, ok, b as int);
                names::lemma_entry(e, b as int);
                assert(outputs@.dom().contains(e[b as int].0@) && ok(e[b as int].0@));
            },
            None => {
                assert forall|k: Seq<char>| #[trigger] outputs@.dom().contains(k) implies !ok(k) by {
                    names::lemma_named(e, k);
                }
            },
        }
    }
    best
}

/// Whether more than one entry is marked.
fn several(keep: &Vec<bool>) -> (r: bool)
    ensures
        r == exists|i: int, j: int|
            0 <= i < j < keep@.len() && #[trigger] keep@[i] && #[trigger] keep@[j],
{
    let mut one: bool = false;
    let mut i: usize = 0;
    while i < keep.len()
        invariant
            i <= keep@.len(),
            one == exists|a: int| 0 <= a < i && #[trigger] keep@[a],
            !exists|a: int, b: int| 0 <= a < b < i && #[trigger] keep@[a] && #[trigger] keep@[b],
        decreases keep@.len() - i,
    {
        if keep[i] {
            if one {
                let ghost a: int = choose|a: int| 0 <= a < i && #[trigger] keep@[a];
                assert(keep@[a] && keep@[i as int]);
                return true;
            }
            assert(keep@[i as int]);
            one = true;
        }
        i = i + 1;
    }
    false
}

/// `keep` marks the entries that satisfy `ok`.
pub open spec fn marked(
    e: Seq<(String, OutputInfo)>,
    keep: Seq<bool>,
    ok: spec_fn(Seq<char>) -> bool,
) -> bool {
    keep.len() == e.len() && forall|j: int| 0 <= j < e.len() ==> #[trigger] keep[j] == ok(e[j].0@)
}

fn mark_here(
    fp: &MonitorFingerprint,
    outputs: &NameMap<OutputInfo>,
    scaled: &NameMap<(i32, i32)>,
) -> (hits: Vec<bool>)
    ensures
        marked(outputs.entries(), hits@, here(*fp, outputs@, scaled@)),
{
    let n: usize = outputs.len();
    let ghost e: Seq<(String, OutputInfo)> = outputs.entries();
    let mut hits: Vec<bool> = Vec::new();
    let mut i: usize = 0;
    while i < n
        invariant
            n == e.len(),
            e == outputs.entries(),
            names::distinct(e),
            i <= n,
            hits@.len() == i,
            forall|j: int|
                0 <= j < i ==> #[trigger] hits@[j] == here(*fp, outputs@, scaled@)(e[j].0@),
        decreases n - i,
    {
        proof {
            names::lemma_entry(e, i as int);
        }
        hits.push(is_here(fp, outputs.name_at(i), outputs.value_at(i), scaled));
        i = i + 1;
    }
    hits
}

fn mark_pool(
    fp: &MonitorFingerprint,
    outputs: &NameMap<OutputInfo>,
    Ghost(scaled): Ghost<Map<Seq<char>, (i32, i32)>>,
    hits: &Vec<bool>,
    any_hit: bool,
) -> (r: (Vec<bool>, Vec<bool>, Vec<bool>))
    requires
        marked(outputs.entries(), hits@, here(*fp, outputs@, scaled)),
        any_hit == any(outputs@, here(*fp, outputs@, scaled)),
    ensures
        marked(outputs.entries(), r.0@, by_size(*fp, outputs@, scaled)),
        marked(outputs.entries(), r.1@, by_make(*fp, outputs@, scaled)),
        marked(outputs.entries(), r.2@, by_model(*fp, outputs@, scaled)),
{
    let n: usize = outputs.len();
    let ghost e: Seq<(String, OutputInfo)> = outputs.entries();
    let mut sized: Vec<bool> = Vec::new();
    let mut made: Vec<bool> = Vec::new();
    let mut modelled: Vec<bool> = Vec::new();
    let mut i: usize = 0;
    while i < n
        invariant
            n == e.len(),
            e == outputs.entries(),
            names::distinct(e),
            i <= n,
            marked(e, hits@, here(*fp, outputs@, scaled)),
            any_hit == any(outputs@, here(*fp, outputs@, scaled)),
            sized@.len() == i,
            made@.len() == i,
            modelled@.len() == i,
            forall|j: int|
                0 <= j < i ==> #[trigger] sized@[j] == by_size(*fp, outputs@, scaled)(e[j].0@),
            forall|j: int|
                0 <= j < i ==> #[trigger] made@[j] == by_make(*fp, outputs@, scaled)(e[j].0@),
            forall|j: int|
                0 <= j < i ==> #[trigger] modelled@[j] == by_model(*fp, outputs@, scaled)(e[j].0@),
        decreases n - i,
    {
        proof {
            names::lemma_entry(e, i as int);
        }
        let out: &OutputInfo = outputs.value_at(i);
        let pooled: bool = !any_hit || hits[i];
        let model_ok: bool = pooled && labels_match(&fp.model, &out.model);
        sized.push(pooled && has_size(fp, out));
        made.push(model_ok && labels_match(&fp.make, &out.make));
        modelled.push(model_ok);
        i = i + 1;
    }
    (sized, made, modelled)
}

fn only_output(outputs: &NameMap<OutputInfo>) -> (r: Option<usize>)
    ensures
        match r {
            Some(k) => k < outputs.entries().len() && only_one(outputs@, all()) && first(outputs@, all())
                == Some(outputs.entries()[k as int].0@),
            None => !only_one(outputs@, all()),
        },
{
    let n: usize = outputs.len();
    let mut every: Vec<bool> = Vec::new();
    let mut i: usize = 0;
    while i < n
        invariant
            n == outputs.entries().len(),
            every@.len() == i,
            i <= n,
            forall|j: int| 0 <= j < i ==> #[trigger] every@[j],
        decreases n - i,
    {
        every.push(true);
        i = i + 1;
    }
    proof {
        lemma_only_one(outputs.entries(), all(), every@);
        if n == 1 {
            assert(every@[0]);
        } else if n > 1 {
            assert(every@[0] && every@[1]);
        }
    }
    if n == 1 {
        first_marked(outputs, &every, Ghost(all()))
    } else {
        None
    }
}

/// The output that a monitor is, by the steps of `matched`. `scaled` gives the
/// outputs' positions times their scale.
#[verifier::rlimit(40)]
#[verifier::spinoff_prover]
pub fn match_output_for_monitor(
    fp: &MonitorFingerprint,
    outputs: &NameMap<OutputInfo>,
    scaled: &NameMap<(i32, i32)>,
    single_monitor_system: bool,
) -> (r: Option<String>)
    ensures
        text::opt(r) == matched(*fp, outputs@, scaled@, single_monitor_system),
{
    let hits: Vec<bool> = mark_here(fp, outputs, scaled);
    let n: usize = outputs.len();
    let ghost place = here(*fp, outputs@, scaled@);
    let first_here: Option<usize> = first_marked(outputs, &hits, Ghost(place));
    proof {
        lemma_only_one(outputs.entries(), place, hits@);
        lemma_no_mark(outputs.entries(), place, hits@);
    }
    if let Some(k) = first_here {
        if !several(&hits) {
            return Some(outputs.name_at(k).clone());
        }
    }
    let (sized, made, modelled): (Vec<bool>, Vec<bool>, Vec<bool>) = mark_pool(
        fp,
        outputs,
        Ghost(scaled@),
        &hits,
        first_here.is_some(),
    );
    if let Some(k) = first_marked(outputs, &sized, Ghost(by_size(*fp, outputs@, scaled@))) {
        return Some(outputs.name_at(k).clone());
    }
    if let Some(k) = first_marked(outputs, &made, Ghost(by_make(*fp, outputs@, scaled@))) {
        return Some(outputs.name_at(k).clone());
    }
    if let Some(k) = first_marked(outputs, &modelled, Ghost(by_model(*fp, outputs@, scaled@))) {
        return Some(outputs.name_at(k).clone());
    }
    if single_monitor_system {
        if let Some(k) = only_output(outputs) {
            return Some(outputs.name_at(k).clone());
        }
    }
    match first_here {
        Some(k) => Some(outputs.name_at(k).clone()),
        None => None,
    }
}

/// Some entry is marked if and only if some output satisfies what the marks say.
proof fn lemma_no_mark(e: Seq<(String, OutputInfo)>, ok: spec_fn(Seq<char>) -> bool, keep: Seq<bool>)
    requires
        names::distinct(e),
        marked(e, keep, ok),
    ensures
        any(names::map_of(e), ok) == exists|i: int| 0 <= i < keep.len() && #[trigger] keep[i],
{
    let m = names::map_of(e);
    if any(m, ok) {
        let k = choose|k: Seq<char>| #[trigger] m.dom().contains(k) && ok(k);
        names::lemma_named(e, k);
        assert(keep[names::position(e, k)]);
    }
    if exists|i: int| 0 <= i < keep.len() && #[trigger] keep[i] {
        let i = choose|i: int| 0 <= i < keep.len() && #[trigger] keep[i];
        names::lemma_entry(e, i);
        assert(m.dom().contains(e[i].0@) && ok(e[i].0@));
    }
}

/// One mark and no second is one output.
proof fn lemma_only_one(e: Seq<(String, OutputInfo)>, ok: spec_fn(Seq<char>) -> bool, keep: Seq<bool>)
    requires
        names::distinct(e),
        marked(e, keep, ok),
    ensures
        only_one(names::map_of(e), ok) == ((exists|i: int| 0 <= i < keep.len() && #[trigger] keep[i])
            && !(exists|i: int, j: int|
            0 <= i < j < keep.len() && #[trigger] keep[i] && #[trigger] keep[j])),
{
    let m = names::map_of(e);
    let one = exists|i: int| 0 <= i < keep.len() && #[trigger] keep[i];
    let two = exists|i: int, j: int|
        0 <= i < j < keep.len() && #[trigger] keep[i] && #[trigger] keep[j];
    if one && !two {
        let i = choose|i: int| 0 <= i < keep.len() && #[trigger] keep[i];
        names::lemma_entry(e, i);
        assert forall|j: Seq<char>| #[trigger] m.dom().contains(j) && ok(j) implies j == e[i].0@ by {
            names::lemma_named(e, j);
            let p = names::position(e, j);
            assert(keep[p]);
            if p < i {
                assert(keep[p] && keep[i]);
            } else if i < p {
                assert(keep[i] && keep[p]);
            }
        }
        assert(m.dom().contains(e[i].0@) && ok(e[i].0@));
        assert(only_one(m, ok));
    }
    if only_one(m, ok) {
        let k = choose|k: Seq<char>| #[trigger]
            m.dom().contains(k) && ok(k) && forall|j: Seq<char>| #[trigger]
                m.dom().contains(j) && ok(j) ==> j == k;
        names::lemma_named(e, k);
        assert(keep[names::position(e, k)]);
        if two {
            let (i, j) = choose|i: int, j: int|
                0 <= i < j < keep.len() && #[trigger] keep[i] && #[trigger] keep[j];
            names::lemma_entry(e, i);
            names::lemma_entry(e, j);
            assert(e[i].0@ == k);
            assert(e[j].0@ == k);
        }
    }
}

// ---------------------------------------------------------------------------
// Which output a monitor is
// ---------------------------------------------------------------------------

/// Two positions are at most thirty pixels apart along each axis.
pub open spec fn close_to(ax: int, ay: int, bx: int, by: int) -> bool {
    ax - bx <= 30 && bx - ax <= 30 && ay - by <= 30 && by - ay <= 30
}

/// The monitor is where an output is: where the compositor says, or where that is in the
/// output's own pixels.
pub open spec fn is_at(
    fp: MonitorFingerprint,
    k: Seq<char>,
    out: OutputInfo,
    scaled: Map<Seq<char>, (i32, i32)>,
) -> bool {
    out.logical matches Some(l) && (close_to(fp.x as int, fp.y as int, l.x as int, l.y as int) || (scaled.dom().contains(
        k,
    ) && close_to(fp.x as int, fp.y as int, scaled[k].0 as int, scaled[k].1 as int)))
}

/// The monitor gives a size, and the output's is at most ten millimetres off.
pub open spec fn is_as_large(fp: MonitorFingerprint, out: OutputInfo) -> bool {
    &&& fp.w_mm > 0
    &&& fp.h_mm > 0
    &&& out.physical_size matches Some(p) && fp.w_mm - p.0 <= 10 && p.0 - fp.w_mm <= 10 && fp.h_mm - p.1 <= 10
        && p.1 - fp.h_mm <= 10
}

/// `a` is a part of `b`.
pub open spec fn is_part(a: Seq<char>, b: Seq<char>) -> bool {
    exists|p: Seq<char>, q: Seq<char>| b == #[trigger] (p + a + q)
}

/// Of two names, but for case, one is a part of the other; the output's is not empty.
pub open spec fn is_named_alike(monitor: Option<String>, output: Option<String>) -> bool {
    monitor is Some && output is Some && text::lowercase(output->0@).len() > 0 && (is_part(
        text::lowercase(output->0@),
        text::lowercase(monitor->0@),
    ) || is_part(text::lowercase(monitor->0@), text::lowercase(output->0@)))
}

proof fn lemma_part(a: Seq<char>, b: Seq<char>)
    ensures
        text::has(b, a) <==> is_part(a, b),
{
    if is_part(a, b) {
        let (p, q) = choose|p: Seq<char>, q: Seq<char>| b == #[trigger] (p + a + q);
        text::law_occurrence_is_between_front_and_rest(p, a, q);
    }
    if text::has(b, a) {
        let i = choose|i: int| text::occurs_at(b, a, i);
        text::law_text_is_made_of_what_it_holds(b, a, i);
    }
}

proof fn lemma_ways(
    fp: MonitorFingerprint,
    m: Map<Seq<char>, OutputInfo>,
    scaled: Map<Seq<char>, (i32, i32)>,
    k: Seq<char>,
)
    ensures
        here(fp, m, scaled)(k) == is_at(fp, k, m[k], scaled),
        same_size(fp, m[k]) == is_as_large(fp, m[k]),
        same_label(fp.make, m[k].make) == is_named_alike(fp.make, m[k].make),
        same_label(fp.model, m[k].model) == is_named_alike(fp.model, m[k].model),
{
    if fp.make is Some && m[k].make is Some {
        lemma_part(text::lowercase(m[k].make->0@), text::lowercase(fp.make->0@));
        lemma_part(text::lowercase(fp.make->0@), text::lowercase(m[k].make->0@));
    }
    if fp.model is Some && m[k].model is Some {
        lemma_part(text::lowercase(m[k].model->0@), text::lowercase(fp.model->0@));
        lemma_part(text::lowercase(fp.model->0@), text::lowercase(m[k].model->0@));
    }
}

/// An output that is the only one where the monitor is is taken, whatever else is known.
pub proof fn law_only_output_at_the_place_is_taken(
    fp: MonitorFingerprint,
    m: Map<Seq<char>, OutputInfo>,
    scaled: Map<Seq<char>, (i32, i32)>,
    single: bool,
    k: Seq<char>,
)
    requires
        m.dom().contains(k),
        is_at(fp, k, m[k], scaled),
        forall|j: Seq<char>| #[trigger] m.dom().contains(j) && j != k ==> !is_at(fp, j, m[j], scaled),
    ensures
        matched(fp, m, scaled, single) == Some(k),
{
    let place = here(fp, m, scaled);
    lemma_ways(fp, m, scaled, k);
    assert forall|j: Seq<char>| #[trigger] m.dom().contains(j) && place(j) implies j == k by {
        lemma_ways(fp, m, scaled, j);
    }
    assert(only_one(m, place));
    assert(is_first(m, place, k));
    lemma_first_unique(m, place, k);
}

/// Several outputs are where the monitor is.
pub open spec fn is_shared(
    fp: MonitorFingerprint,
    m: Map<Seq<char>, OutputInfo>,
    scaled: Map<Seq<char>, (i32, i32)>,
) -> bool {
    exists|a: Seq<char>, b: Seq<char>|
        a != b && #[trigger] m.dom().contains(a) && #[trigger] m.dom().contains(b) && is_at(fp, a, m[a], scaled) && is_at(
            fp,
            b,
            m[b],
            scaled,
        )
}

/// No output is where the monitor is.
pub open spec fn is_nowhere(
    fp: MonitorFingerprint,
    m: Map<Seq<char>, OutputInfo>,
    scaled: Map<Seq<char>, (i32, i32)>,
) -> bool {
    forall|k: Seq<char>| #[trigger] m.dom().contains(k) ==> !is_at(fp, k, m[k], scaled)
}

/// An output can still be the monitor's: it is where the monitor is, or none is.
pub open spec fn is_left(
    fp: MonitorFingerprint,
    m: Map<Seq<char>, OutputInfo>,
    scaled: Map<Seq<char>, (i32, i32)>,
    k: Seq<char>,
) -> bool {
    m.dom().contains(k) && (is_at(fp, k, m[k], scaled) || is_nowhere(fp, m, scaled))
}

proof fn lemma_left(
    fp: MonitorFingerprint,
    m: Map<Seq<char>, OutputInfo>,
    scaled: Map<Seq<char>, (i32, i32)>,
    k: Seq<char>,
)
    requires
        m.dom().contains(k),
    ensures
        in_pool(fp, m, scaled, k) == is_left(fp, m, scaled, k),
{
    let place = here(fp, m, scaled);
    lemma_ways(fp, m, scaled, k);
    if any(m, place) {
        let j = choose|j: Seq<char>| #[trigger] m.dom().contains(j) && place(j);
        lemma_ways(fp, m, scaled, j);
    } else {
        assert forall|j: Seq<char>| #[trigger] m.dom().contains(j) implies !is_at(fp, j, m[j], scaled) by {
            lemma_ways(fp, m, scaled, j);
            assert(!place(j));
        }
    }
}

proof fn lemma_not_alone(
    fp: MonitorFingerprint,
    m: Map<Seq<char>, OutputInfo>,
    scaled: Map<Seq<char>, (i32, i32)>,
)
    requires
        is_shared(fp, m, scaled) || is_nowhere(fp, m, scaled),
    ensures
        !only_one(m, here(fp, m, scaled)),
{
    let place = here(fp, m, scaled);
    if only_one(m, place) {
        let k = choose|k: Seq<char>| #[trigger]
            m.dom().contains(k) && place(k) && forall|j: Seq<char>| #[trigger] m.dom().contains(j) && place(j) ==> j == k;
        lemma_ways(fp, m, scaled, k);
        if is_shared(fp, m, scaled) {
            let (a, b) = choose|a: Seq<char>, b: Seq<char>|
                a != b && #[trigger] m.dom().contains(a) && #[trigger] m.dom().contains(b) && is_at(fp, a, m[a], scaled)
                    && is_at(fp, b, m[b], scaled);
            lemma_ways(fp, m, scaled, a);
            lemma_ways(fp, m, scaled, b);
        }
    }
}

/// Where the place does not decide, the size does: an output of the monitor's size is taken,
/// the first by name where there are several.
pub proof fn law_size_decides_next(
    fp: MonitorFingerprint,
    m: Map<Seq<char>, OutputInfo>,
    scaled: Map<Seq<char>, (i32, i32)>,
    single: bool,
    k: Seq<char>,
)
    requires
        is_shared(fp, m, scaled) || is_nowhere(fp, m, scaled),
        is_left(fp, m, scaled, k),
        is_as_large(fp, m[k]),
        forall|j: Seq<char>| #[trigger]
            m.dom().contains(j) && j != k && is_left(fp, m, scaled, j) && is_as_large(fp, m[j]) ==> text::precedes(k, j),
    ensures
        matched(fp, m, scaled, single) == Some(k),
{
    lemma_not_alone(fp, m, scaled);
    let ok = by_size(fp, m, scaled);
    lemma_left(fp, m, scaled, k);
    lemma_ways(fp, m, scaled, k);
    assert(m.dom().contains(k) && ok(k));
    assert(any(m, ok));
    assert forall|j: Seq<char>| #[trigger] m.dom().contains(j) && ok(j) && j != k implies text::precedes(k, j) by {
        lemma_left(fp, m, scaled, j);
        lemma_ways(fp, m, scaled, j);
    }
    assert(is_first(m, ok, k));
    lemma_first_unique(m, ok, k);
}

/// Where neither place nor size decides, make and model do.
pub proof fn law_make_and_model_decide_next(
    fp: MonitorFingerprint,
    m: Map<Seq<char>, OutputInfo>,
    scaled: Map<Seq<char>, (i32, i32)>,
    single: bool,
    k: Seq<char>,
)
    requires
        is_shared(fp, m, scaled) || is_nowhere(fp, m, scaled),
        forall|j: Seq<char>| #[trigger] m.dom().contains(j) && is_left(fp, m, scaled, j) ==> !is_as_large(fp, m[j]),
        is_left(fp, m, scaled, k),
        is_named_alike(fp.make, m[k].make),
        is_named_alike(fp.model, m[k].model),
        forall|j: Seq<char>| #[trigger]
            m.dom().contains(j) && j != k && is_left(fp, m, scaled, j) && is_named_alike(fp.make, m[j].make)
                && is_named_alike(fp.model, m[j].model) ==> text::precedes(k, j),
    ensures
        matched(fp, m, scaled, single) == Some(k),
{
    lemma_not_alone(fp, m, scaled);
    lemma_no_size(fp, m, scaled);
    let ok = by_make(fp, m, scaled);
    lemma_left(fp, m, scaled, k);
    lemma_ways(fp, m, scaled, k);
    assert(m.dom().contains(k) && ok(k));
    assert(any(m, ok));
    assert forall|j: Seq<char>| #[trigger] m.dom().contains(j) && ok(j) && j != k implies text::precedes(k, j) by {
        lemma_left(fp, m, scaled, j);
        lemma_ways(fp, m, scaled, j);
    }
    assert(is_first(m, ok, k));
    lemma_first_unique(m, ok, k);
}

proof fn lemma_no_size(
    fp: MonitorFingerprint,
    m: Map<Seq<char>, OutputInfo>,
    scaled: Map<Seq<char>, (i32, i32)>,
)
    requires
        forall|j: Seq<char>| #[trigger] m.dom().contains(j) && is_left(fp, m, scaled, j) ==> !is_as_large(fp, m[j]),
    ensures
        !any(m, by_size(fp, m, scaled)),
{
    let ok = by_size(fp, m, scaled);
    if any(m, ok) {
        let j = choose|j: Seq<char>| #[trigger] m.dom().contains(j) && ok(j);
        lemma_left(fp, m, scaled, j);
        lemma_ways(fp, m, scaled, j);
    }
}

proof fn lemma_no_make(
    fp: MonitorFingerprint,
    m: Map<Seq<char>, OutputInfo>,
    scaled: Map<Seq<char>, (i32, i32)>,
)
    requires
        forall|j: Seq<char>| #[trigger]
            m.dom().contains(j) && is_left(fp, m, scaled, j) && is_named_alike(fp.model, m[j].model) ==> !is_named_alike(
                fp.make,
                m[j].make,
            ),
    ensures
        !any(m, by_make(fp, m, scaled)),
{
    let ok = by_make(fp, m, scaled);
    if any(m, ok) {
        let j = choose|j: Seq<char>| #[trigger] m.dom().contains(j) && ok(j);
        lemma_left(fp, m, scaled, j);
        lemma_ways(fp, m, scaled, j);
    }
}

/// Where no output has the make and the model, the model alone decides.
pub proof fn law_model_decides_next(
    fp: MonitorFingerprint,
    m: Map<Seq<char>, OutputInfo>,
    scaled: Map<Seq<char>, (i32, i32)>,
    single: bool,
    k: Seq<char>,
)
    requires
        is_shared(fp, m, scaled) || is_nowhere(fp, m, scaled),
        forall|j: Seq<char>| #[trigger] m.dom().contains(j) && is_left(fp, m, scaled, j) ==> !is_as_large(fp, m[j]),
        forall|j: Seq<char>| #[trigger]
            m.dom().contains(j) && is_left(fp, m, scaled, j) && is_named_alike(fp.model, m[j].model) ==> !is_named_alike(
                fp.make,
                m[j].make,
            ),
        is_left(fp, m, scaled, k),
        is_named_alike(fp.model, m[k].model),
        forall|j: Seq<char>| #[trigger]
            m.dom().contains(j) && j != k && is_left(fp, m, scaled, j) && is_named_alike(fp.model, m[j].model)
                ==> text::precedes(k, j),
    ensures
        matched(fp, m, scaled, single) == Some(k),
{
    lemma_not_alone(fp, m, scaled);
    lemma_no_size(fp, m, scaled);
    lemma_no_make(fp, m, scaled);
    let ok = by_model(fp, m, scaled);
    lemma_left(fp, m, scaled, k);
    lemma_ways(fp, m, scaled, k);
    assert(m.dom().contains(k) && ok(k));
    assert(any(m, ok));
    assert forall|j: Seq<char>| #[trigger] m.dom().contains(j) && ok(j) && j != k implies text::precedes(k, j) by {
        lemma_left(fp, m, scaled, j);
        lemma_ways(fp, m, scaled, j);
    }
    assert(is_first(m, ok, k));
    lemma_first_unique(m, ok, k);
}

/// Nothing that is known of the monitor fits an output that is left.
pub open spec fn is_strange(
    fp: MonitorFingerprint,
    m: Map<Seq<char>, OutputInfo>,
    scaled: Map<Seq<char>, (i32, i32)>,
) -> bool {
    forall|j: Seq<char>| #[trigger]
        m.dom().contains(j) && is_left(fp, m, scaled, j) ==> !is_as_large(fp, m[j]) && !is_named_alike(
            fp.model,
            m[j].model,
        )
}

proof fn lemma_strange(
    fp: MonitorFingerprint,
    m: Map<Seq<char>, OutputInfo>,
    scaled: Map<Seq<char>, (i32, i32)>,
)
    requires
        is_strange(fp, m, scaled),
    ensures
        !any(m, by_size(fp, m, scaled)),
        !any(m, by_make(fp, m, scaled)),
        !any(m, by_model(fp, m, scaled)),
{
    lemma_no_size(fp, m, scaled);
    lemma_no_make(fp, m, scaled);
    let ok = by_model(fp, m, scaled);
    if any(m, ok) {
        let j = choose|j: Seq<char>| #[trigger] m.dom().contains(j) && ok(j);
        lemma_left(fp, m, scaled, j);
        lemma_ways(fp, m, scaled, j);
    }
}

/// The only monitor is the only output, where nothing tells otherwise.
pub proof fn law_only_monitor_is_the_only_output(
    fp: MonitorFingerprint,
    m: Map<Seq<char>, OutputInfo>,
    scaled: Map<Seq<char>, (i32, i32)>,
    k: Seq<char>,
)
    requires
        m.dom().contains(k),
        forall|j: Seq<char>| #[trigger] m.dom().contains(j) ==> j == k,
    ensures
        matched(fp, m, scaled, true) == Some(k),
{
    let place = here(fp, m, scaled);
    if is_at(fp, k, m[k], scaled) {
        law_only_output_at_the_place_is_taken(fp, m, scaled, true, k);
    } else {
        assert(is_nowhere(fp, m, scaled));
        lemma_not_alone(fp, m, scaled);
        assert forall|ok: spec_fn(Seq<char>) -> bool| #[trigger] any(m, ok) implies first(m, ok) == Some(k) by {
            let j = choose|j: Seq<char>| #[trigger] m.dom().contains(j) && ok(j);
            assert(is_first(m, ok, k));
            lemma_first_unique(m, ok, k);
        }
        assert(m.dom().contains(k) && all()(k));
        assert(only_one(m, all()));
        assert(any(m, all()));
    }
}

/// Where nothing decides between several outputs at the place, the first by name is taken;
/// where there is none at the place, none is, unless monitor and output are the only ones.
pub proof fn law_first_by_name_is_taken_last(
    fp: MonitorFingerprint,
    m: Map<Seq<char>, OutputInfo>,
    scaled: Map<Seq<char>, (i32, i32)>,
    single: bool,
    k: Seq<char>,
)
    requires
        is_strange(fp, m, scaled),
        !single || exists|a: Seq<char>, b: Seq<char>|
            a != b && #[trigger] m.dom().contains(a) && #[trigger] m.dom().contains(b),
    ensures
        is_nowhere(fp, m, scaled) ==> matched(fp, m, scaled, single) is None,
        is_shared(fp, m, scaled) && m.dom().contains(k) && is_at(fp, k, m[k], scaled) && (forall|j: Seq<char>| #[trigger]
            m.dom().contains(j) && j != k && is_at(fp, j, m[j], scaled) ==> text::precedes(k, j)) ==> matched(
            fp,
            m,
            scaled,
            single,
        ) == Some(k),
{
    let place = here(fp, m, scaled);
    lemma_strange(fp, m, scaled);
    assert(!(single && only_one(m, all()))) by {
        if single && only_one(m, all()) {
            let (a, b) = choose|a: Seq<char>, b: Seq<char>|
                a != b && #[trigger] m.dom().contains(a) && #[trigger] m.dom().contains(b);
            let c = choose|c: Seq<char>| #[trigger]
                m.dom().contains(c) && all()(c) && forall|j: Seq<char>| #[trigger]
                    m.dom().contains(j) && all()(j) ==> j == c;
            assert(all()(a) && all()(b));
        }
    }
    if is_nowhere(fp, m, scaled) {
        lemma_not_alone(fp, m, scaled);
        if any(m, place) {
            let j = choose|j: Seq<char>| #[trigger] m.dom().contains(j) && place(j);
            lemma_ways(fp, m, scaled, j);
        }
    }
    if is_shared(fp, m, scaled) && m.dom().contains(k) && is_at(fp, k, m[k], scaled) && (forall|j: Seq<char>| #[trigger]
        m.dom().contains(j) && j != k && is_at(fp, j, m[j], scaled) ==> text::precedes(k, j)) {
        lemma_not_alone(fp, m, scaled);
        lemma_ways(fp, m, scaled, k);
        assert forall|j: Seq<char>| #[trigger] m.dom().contains(j) && place(j) && j != k implies text::precedes(k, j) by {
            lemma_ways(fp, m, scaled, j);
        }
        assert(is_first(m, place, k));
        lemma_first_unique(m, place, k);
    }
}

} // verus!
