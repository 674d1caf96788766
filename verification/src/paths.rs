use vstd::prelude::*;

verus! {

/// The byte that separates the components of an entry name.
pub const SEPARATOR: u8 = 0x2f;

pub const DOT: u8 = 0x2e;

/// The components of `name`: the maximal runs of bytes between separators,
/// empty runs included. A name without a separator is its own single component.
pub open spec fn split(name: Seq<u8>) -> Seq<Seq<u8>>
    decreases name.len(),
{
    if name.len() == 0 {
        seq![Seq::<u8>::empty()]
    } else {
        let before = split(name.drop_last());
        if name.last() == SEPARATOR {
            before.push(Seq::<u8>::empty())
        } else {
            before.drop_last().push(before.last().push(name.last()))
        }
    }
}

/// `.`: stands for the directory it is found in.
pub open spec fn is_current(component: Seq<u8>) -> bool {
    component =~= seq![DOT]
}

/// `..`: stands for the directory above.
pub open spec fn is_parent(component: Seq<u8>) -> bool {
    component =~= seq![DOT, DOT]
}

/// Where one more component leads from the directory `at` (named by the
/// components below the root of the tree), or `None` once the walk has left
/// the tree.
pub open spec fn descend(at: Option<Seq<Seq<u8>>>, component: Seq<u8>) -> Option<Seq<Seq<u8>>> {
    match at {
        None => None,
        Some(dirs) => if component.len() == 0 || is_current(component) {
            Some(dirs)
        } else if is_parent(component) {
            if dirs.len() == 0 {
                None
            } else {
                Some(dirs.drop_last())
            }
        } else {
            Some(dirs.push(component))
        },
    }
}

/// The walk along `components`, one after the other, starting from `at`.
pub open spec fn walk(at: Option<Seq<Seq<u8>>>, components: Seq<Seq<u8>>) -> Option<Seq<Seq<u8>>>
    decreases components.len(),
{
    if components.len() == 0 {
        at
    } else {
        descend(walk(at, components.drop_last()), components.last())
    }
}

/// A name that must not be followed at all: one that starts at the root of the
/// file system, or that holds a zero byte.
pub open spec fn is_forbidden(name: Seq<u8>) -> bool {
    (name.len() > 0 && name[0] == SEPARATOR) || name.contains(0u8)
}

/// The place below the destination that the entry name `name` denotes, as the
/// components that lead there, or `None` where the name is forbidden or at some
/// point steps above the destination.
pub open spec fn resolve(name: Seq<u8>) -> Option<Seq<Seq<u8>>> {
    if is_forbidden(name) {
        None
    } else {
        walk(Some(Seq::empty()), split(name))
    }
}

/// The views of the components held in `parts`.
pub open spec fn parts_view(parts: Seq<Vec<u8>>) -> Seq<Seq<u8>> {
    parts.map_values(|p: Vec<u8>| p@)
}

/// Takes one step of the walk: from the directory `dirs`, or from outside the
/// tree where `inside` is false, along `component`.
fn step(dirs: &mut Vec<Vec<u8>>, inside: bool, component: Vec<u8>) -> (still_inside: bool)
    ensures
        descend(
            if inside {
                Some(parts_view(old(dirs)@))
            } else {
                None
            },
            component@,
        ) == (if still_inside {
            Some(parts_view(final(dirs)@))
        } else {
            None::<Seq<Seq<u8>>>
        }),
{
    if !inside {
        return false;
    }
    let ghost before = dirs@;
    if component.len() == 0 {
        true
    } else if component.len() == 1 && component[0] == DOT {
        assert(component@ =~= seq![DOT]);
        true
    } else if component.len() == 2 && component[0] == DOT && component[1] == DOT {
        assert(component@ =~= seq![DOT, DOT]);
        if dirs.len() == 0 {
            false
        } else {
            dirs.pop();
            assert(parts_view(dirs@) =~= parts_view(before).drop_last());
            true
        }
    } else {
        assert(!is_current(component@) && !is_parent(component@));
        dirs.push(component);
        assert(parts_view(dirs@) =~= parts_view(before).push(component@));
        true
    }
}

/// Whether one of `components` is `..`.
pub open spec fn any_parent(components: Seq<Seq<u8>>) -> bool {
    exists|i: int| 0 <= i < components.len() && is_parent(#[trigger] components[i])
}

/// Whether the name steps up anywhere, wherever it ends.
pub open spec fn has_parent(name: Seq<u8>) -> bool {
    any_parent(split(name))
}

proof fn lemma_any_parent_push(components: Seq<Seq<u8>>, component: Seq<u8>)
    ensures
        any_parent(components.push(component)) <==> any_parent(components) || is_parent(
            component,
        ),
{
    let longer = components.push(component);
    if any_parent(components) {
        let i = choose|i: int| 0 <= i < components.len() && is_parent(#[trigger] components[i]);
        assert(is_parent(longer[i]));
    }
    if is_parent(component) {
        assert(is_parent(longer[components.len() as int]));
    }
    if any_parent(longer) {
        let i = choose|i: int| 0 <= i < longer.len() && is_parent(#[trigger] longer[i]);
        if i < components.len() {
            assert(is_parent(components[i]));
        }
    }
}

fn names_parent(component: &Vec<u8>) -> (yes: bool)
    ensures
        yes == is_parent(component@),
{
    if component.len() == 2 && component[0] == DOT && component[1] == DOT {
        assert(component@ =~= seq![DOT, DOT]);
        true
    } else {
        false
    }
}

/// What one pass over a name finds.
struct Survey {
    dirs: Vec<Vec<u8>>,
    inside: bool,
    has_zero: bool,
    steps_up: bool,
}

fn survey(name: &[u8]) -> (found: Survey)
    ensures
        walk(Some(Seq::empty()), split(name@)) == (if found.inside {
            Some(parts_view(found.dirs@))
        } else {
            None::<Seq<Seq<u8>>>
        }),
        found.has_zero <==> name@.contains(0u8),
        found.steps_up <==> has_parent(name@),
{
    let mut dirs: Vec<Vec<u8>> = Vec::new();
    let mut inside = true;
    let mut current: Vec<u8> = Vec::new();
    let mut has_zero = false;
    let mut steps_up = false;
    let mut i: usize = 0;
    proof {
        assert(name@.take(0) =~= Seq::<u8>::empty());
        assert(split(name@.take(0)).drop_last() =~= Seq::<Seq<u8>>::empty());
        assert(parts_view(dirs@) =~= Seq::<Seq<u8>>::empty());
    }
    while i < name.len()
        invariant
            i <= name.len(),
            split(name@.take(i as int)).len() > 0,
            split(name@.take(i as int)).last() == current@,
            walk(Some(Seq::empty()), split(name@.take(i as int)).drop_last()) == (if inside {
                Some(parts_view(dirs@))
            } else {
                None::<Seq<Seq<u8>>>
            }),
            has_zero <==> name@.take(i as int).contains(0u8),
            steps_up <==> any_parent(split(name@.take(i as int)).drop_last()),
        decreases name.len() - i,
    {
        let byte = name[i];
        proof {
            let shorter = name@.take(i as int);
            let longer = name@.take(i as int + 1);
            assert(longer.drop_last() =~= shorter);
            assert(longer.last() == byte);
            assert(longer =~= shorter.push(byte));
            if byte == 0u8 {
                assert(longer[i as int] == 0u8);
            }
            if shorter.contains(0u8) {
                let k = choose|k: int| 0 <= k < shorter.len() && shorter[k] == 0u8;
                assert(longer[k] == 0u8);
            }
            if longer.contains(0u8) && byte != 0u8 {
                let k = choose|k: int| 0 <= k < longer.len() && longer[k] == 0u8;
                assert(shorter[k] == 0u8);
            }
            let parts = split(shorter);
            if byte == SEPARATOR {
                assert(split(longer).drop_last() =~= parts);
                assert(parts.drop_last().push(parts.last()) =~= parts);
                lemma_any_parent_push(parts.drop_last(), parts.last());
            } else {
                assert(split(longer).drop_last() =~= parts.drop_last());
            }
        }
        if byte == 0u8 {
            has_zero = true;
        }
        if byte == SEPARATOR {
            if names_parent(&current) {
                steps_up = true;
            }
            inside = step(&mut dirs, inside, current);
            current = Vec::new();
        } else {
            current.push(byte);
        }
        i += 1;
    }
    proof {
        assert(name@.take(i as int) =~= name@);
        let parts = split(name@);
        assert(parts.drop_last().push(parts.last()) =~= parts);
        lemma_any_parent_push(parts.drop_last(), parts.last());
    }
    if names_parent(&current) {
        steps_up = true;
    }
    inside = step(&mut dirs, inside, current);
    Survey { dirs, inside, has_zero, steps_up }
}

/// Resolves an entry name to the components that lead to its place below the
/// destination. Returns `None` exactly where the name is forbidden or steps
/// above the destination.
pub fn resolve_name(name: &[u8]) -> (place: Option<Vec<Vec<u8>>>)
    ensures
        match place {
            Some(parts) => resolve(name@) == Some(parts_view(parts@)),
            None => resolve(name@).is_none(),
        },
{
    let found = survey(name);
    if found.has_zero || (name.len() > 0 && name[0] == SEPARATOR) || !found.inside {
        None
    } else {
        Some(found.dirs)
    }
}

/// Where an archive entry belongs.
#[derive(Debug, PartialEq, Eq)]
pub enum Place {
    /// Nowhere: the entry is passed over.
    Nowhere,
    /// Nowhere, and the archive is refused for it.
    Refused,
    /// Below the destination, along these components.
    At(Vec<Vec<u8>>),
}

pub enum PlaceView {
    Nowhere,
    Refused,
    At(Seq<Seq<u8>>),
}

impl View for Place {
    type V = PlaceView;

    open spec fn view(&self) -> PlaceView {
        match self {
            Place::Nowhere => PlaceView::Nowhere,
            Place::Refused => PlaceView::Refused,
            Place::At(parts) => PlaceView::At(parts_view(parts@)),
        }
    }
}

/// The strict reading of a name, as zip archives are read: the name is
/// resolved, and the archive refused where that fails.
pub open spec fn located_strictly(name: Seq<u8>) -> PlaceView {
    match resolve(name) {
        Some(parts) => PlaceView::At(parts),
        None => PlaceView::Refused,
    }
}

/// The lenient reading of a name, as tar archives are read: separators at
/// the front do not count, so that a rooted name is read as one below the
/// destination; an entry whose name steps up anywhere is passed over,
/// wherever the name would end; a zero byte refuses the archive.
pub open spec fn located_leniently(name: Seq<u8>) -> PlaceView {
    if name.contains(0u8) {
        PlaceView::Refused
    } else if has_parent(name) {
        PlaceView::Nowhere
    } else {
        match walk(Some(Seq::empty()), split(name)) {
            Some(parts) => PlaceView::At(parts),
            None => PlaceView::Nowhere,
        }
    }
}

pub open spec fn located(name: Seq<u8>, lenient: bool) -> PlaceView {
    if lenient {
        located_leniently(name)
    } else {
        located_strictly(name)
    }
}

/// Finds the place of an entry by its name, in the lenient or in the strict
/// reading.
pub fn locate(name: &[u8], lenient: bool) -> (place: Place)
    ensures
        place@ == located(name@, lenient),
{
    let found = survey(name);
    if lenient {
        if found.has_zero {
            Place::Refused
        } else if found.steps_up || !found.inside {
            Place::Nowhere
        } else {
            Place::At(found.dirs)
        }
    } else {
        if found.has_zero || (name.len() > 0 && name[0] == SEPARATOR) || !found.inside {
            Place::Refused
        } else {
            Place::At(found.dirs)
        }
    }
}

/// A component that names one step down and nothing else: not empty, not
/// `.` or `..`, and free of separators and zero bytes.
pub open spec fn is_normal(component: Seq<u8>) -> bool {
    &&& component.len() > 0
    &&& !is_current(component)
    &&& !is_parent(component)
    &&& !component.contains(SEPARATOR)
    &&& !component.contains(0u8)
}

pub open spec fn all_normal(parts: Seq<Seq<u8>>) -> bool {
    forall|i: int| 0 <= i < parts.len() ==> is_normal(#[trigger] parts[i])
}

/// The name that leads along `parts`: the parts with a separator between
/// each two.
pub open spec fn join(parts: Seq<Seq<u8>>) -> Seq<u8>
    decreases parts.len(),
{
    if parts.len() == 0 {
        Seq::empty()
    } else if parts.len() == 1 {
        parts[0]
    } else {
        join(parts.drop_last()) + seq![SEPARATOR] + parts.last()
    }
}

/// Splitting never gives nothing, no component holds a separator, and a
/// component holds a zero byte only where the name does.
pub proof fn lemma_split_components(name: Seq<u8>)
    ensures
        split(name).len() > 0,
        forall|i: int| 0 <= i < split(name).len() ==> !(#[trigger] split(name)[i]).contains(SEPARATOR),
        !name.contains(0u8) ==> forall|i: int|
            0 <= i < split(name).len() ==> !(#[trigger] split(name)[i]).contains(0u8),
    decreases name.len(),
{
    if name.len() > 0 {
        let shorter = name.drop_last();
        lemma_split_components(shorter);
        let before = split(shorter);
        let parts = split(name);
        if name.contains(0u8) {
        } else {
            assert(!shorter.contains(0u8)) by {
                if shorter.contains(0u8) {
                    let k = choose|k: int| 0 <= k < shorter.len() && shorter[k] == 0u8;
                    assert(name[k] == 0u8);
                }
            }
            assert(name.last() != 0u8) by {
                assert(name[name.len() - 1] == name.last());
            }
        }
        if name.last() == SEPARATOR {
            assert forall|i: int| 0 <= i < parts.len() implies !(#[trigger] parts[i]).contains(
                SEPARATOR,
            ) && (!name.contains(0u8) ==> !parts[i].contains(0u8)) by {
                if i < before.len() {
                    assert(parts[i] == before[i]);
                }
            }
        } else {
            let grown = before.last().push(name.last());
            assert forall|i: int| 0 <= i < parts.len() implies !(#[trigger] parts[i]).contains(
                SEPARATOR,
            ) && (!name.contains(0u8) ==> !parts[i].contains(0u8)) by {
                if i < before.len() - 1 {
                    assert(parts[i] == before[i]);
                } else {
                    assert(parts[i] == grown);
                    assert(grown.drop_last() =~= before.last());
                    assert(!before[before.len() - 1].contains(SEPARATOR));
                    if grown.contains(SEPARATOR) {
                        let k = choose|k: int| 0 <= k < grown.len() && grown[k] == SEPARATOR;
                        assert(before.last()[k] == SEPARATOR);
                    }
                    if !name.contains(0u8) && grown.contains(0u8) {
                        assert(!before[before.len() - 1].contains(0u8));
                        let k = choose|k: int| 0 <= k < grown.len() && grown[k] == 0u8;
                        assert(before.last()[k] == 0u8);
                    }
                }
            }
        }
    } else {
        assert(!Seq::<u8>::empty().contains(SEPARATOR));
        assert(!Seq::<u8>::empty().contains(0u8));
    }
}

/// A walk that starts among normal components and goes along components
/// free of separators and zero bytes ends among normal components.
pub proof fn lemma_walk_stays_normal(at: Option<Seq<Seq<u8>>>, components: Seq<Seq<u8>>)
    requires
        at matches Some(dirs) ==> all_normal(dirs),
        forall|i: int|
            0 <= i < components.len() ==> !(#[trigger] components[i]).contains(SEPARATOR)
                && !components[i].contains(0u8),
    ensures
        walk(at, components) matches Some(dirs) ==> all_normal(dirs),
    decreases components.len(),
{
    if components.len() > 0 {
        lemma_walk_stays_normal(at, components.drop_last());
        let last = components[components.len() - 1];
        assert(last == components.last());
    }
}

/// Containment: wherever a name resolves to, every component that leads
/// there is a normal one, so that following them from the destination, one
/// after the other, never leaves it.
pub proof fn lemma_resolved_is_contained(name: Seq<u8>)
    ensures
        resolve(name) matches Some(parts) ==> all_normal(parts),
{
    if !is_forbidden(name) {
        lemma_split_components(name);
        lemma_walk_stays_normal(Some(Seq::empty()), split(name));
    }
}

/// A separator that follows `front` begins a new component.
pub proof fn lemma_split_append(front: Seq<u8>, component: Seq<u8>)
    requires
        !component.contains(SEPARATOR),
    ensures
        split(front + seq![SEPARATOR] + component) == split(front).push(component),
    decreases component.len(),
{
    let whole = front + seq![SEPARATOR] + component;
    if component.len() == 0 {
        assert(whole.drop_last() =~= front);
        assert(whole.last() == SEPARATOR);
        assert(component =~= Seq::<u8>::empty());
    } else {
        let shorter = component.drop_last();
        assert(!shorter.contains(SEPARATOR)) by {
            if shorter.contains(SEPARATOR) {
                let k = choose|k: int| 0 <= k < shorter.len() && shorter[k] == SEPARATOR;
                assert(component[k] == SEPARATOR);
            }
        }
        lemma_split_append(front, shorter);
        assert(whole.drop_last() =~= front + seq![SEPARATOR] + shorter);
        assert(whole.last() == component.last());
        assert(component[component.len() - 1] != SEPARATOR);
        let before = split(front).push(shorter);
        assert(before.drop_last() =~= split(front));
        assert(before.last().push(component.last()) =~= component);
    }
}

/// A name without a separator is its own single component.
pub proof fn lemma_split_single(component: Seq<u8>)
    requires
        !component.contains(SEPARATOR),
    ensures
        split(component) == seq![component],
    decreases component.len(),
{
    if component.len() > 0 {
        let shorter = component.drop_last();
        assert(!shorter.contains(SEPARATOR)) by {
            if shorter.contains(SEPARATOR) {
                let k = choose|k: int| 0 <= k < shorter.len() && shorter[k] == SEPARATOR;
                assert(component[k] == SEPARATOR);
            }
        }
        lemma_split_single(shorter);
        assert(component[component.len() - 1] != SEPARATOR);
        assert(seq![shorter].drop_last().push(seq![shorter].last().push(component.last()))
            =~= seq![component]) by {
            assert(shorter.push(component.last()) =~= component);
        }
    } else {
        assert(component =~= Seq::<u8>::empty());
    }
}

/// Splitting undoes joining.
pub proof fn lemma_split_join(parts: Seq<Seq<u8>>)
    requires
        parts.len() > 0,
        forall|i: int| 0 <= i < parts.len() ==> !(#[trigger] parts[i]).contains(SEPARATOR),
    ensures
        split(join(parts)) == parts,
    decreases parts.len(),
{
    if parts.len() == 1 {
        lemma_split_single(parts[0]);
        assert(seq![parts[0]] =~= parts);
    } else {
        lemma_split_join(parts.drop_last());
        assert(!parts[parts.len() - 1].contains(SEPARATOR));
        lemma_split_append(join(parts.drop_last()), parts.last());
        assert(parts.drop_last().push(parts.last()) =~= parts);
    }
}

/// A walk along normal components goes down one step with each.
pub proof fn lemma_walk_down(parts: Seq<Seq<u8>>)
    requires
        all_normal(parts),
    ensures
        walk(Some(Seq::empty()), parts) == Some(parts),
    decreases parts.len(),
{
    if parts.len() > 0 {
        assert(all_normal(parts.drop_last())) by {
            assert forall|i: int| 0 <= i < parts.drop_last().len() implies is_normal(
                #[trigger] parts.drop_last()[i],
            ) by {
                assert(parts.drop_last()[i] == parts[i]);
            }
        }
        lemma_walk_down(parts.drop_last());
        assert(is_normal(parts[parts.len() - 1]));
        assert(parts.drop_last().push(parts.last()) =~= parts);
    } else {
        assert(parts =~= Seq::<Seq<u8>>::empty());
    }
}

/// The bytes of a joined name are a separator or come from one of the parts.
proof fn lemma_join_bytes(parts: Seq<Seq<u8>>, k: int)
    requires
        0 <= k < join(parts).len(),
    ensures
        join(parts)[k] == SEPARATOR || exists|i: int, j: int|
            0 <= i < parts.len() && 0 <= j < parts[i].len() && #[trigger] parts[i][j] == join(
                parts,
            )[k],
        parts.len() > 0 && parts[0].len() > 0 && k == 0 ==> join(parts)[k] == parts[0][0],
    decreases parts.len(),
{
    if parts.len() == 1 {
        assert(parts[0][k] == join(parts)[k]);
    } else if parts.len() > 1 {
        let front = join(parts.drop_last());
        if k < front.len() {
            lemma_join_bytes(parts.drop_last(), k);
            if front[k] != SEPARATOR {
                let (i, j) = choose|i: int, j: int|
                    0 <= i < parts.drop_last().len() && 0 <= j < parts.drop_last()[i].len()
                        && #[trigger] parts.drop_last()[i][j] == front[k];
                assert(parts[i][j] == join(parts)[k]);
            }
            assert(parts.drop_last()[0] == parts[0]);
        } else if k > front.len() {
            let j = k - front.len() - 1;
            assert(parts[parts.len() - 1][j] == join(parts)[k]);
        } else {
            if k == 0 && parts[0].len() > 0 {
                if parts.len() == 2 {
                    assert(parts.drop_last()[0] == parts[0]);
                    assert(front == parts[0]);
                } else {
                    assert(parts.drop_last().drop_last()[0] == parts[0]) by {
                        assert(parts.drop_last()[0] == parts[0]);
                    }
                    assert(front.len() >= join(parts.drop_last().drop_last()).len() + 1);
                }
            }
        }
    }
}

/// Names: a name made of normal components, joined by separators, resolves
/// to exactly those components.
pub proof fn lemma_resolve_join(parts: Seq<Seq<u8>>)
    requires
        all_normal(parts),
    ensures
        resolve(join(parts)) == Some(parts),
{
    let name = join(parts);
    if parts.len() == 0 {
        assert(name =~= Seq::<u8>::empty());
        assert(!name.contains(0u8));
        assert(split(name) =~= seq![Seq::<u8>::empty()]);
        assert(split(name).drop_last() =~= Seq::<Seq<u8>>::empty());
        assert(walk(Some(Seq::empty()), split(name).drop_last()) == Some(
            Seq::<Seq<u8>>::empty(),
        ));
        assert(parts =~= Seq::<Seq<u8>>::empty());
    } else {
        assert(is_normal(parts[0]));
        assert forall|i: int| 0 <= i < parts.len() implies !(#[trigger] parts[i]).contains(
            SEPARATOR,
        ) by {
            assert(is_normal(parts[i]));
        }
        lemma_split_join(parts);
        lemma_walk_down(parts);
        assert(!name.contains(0u8)) by {
            if name.contains(0u8) {
                let k = choose|k: int| 0 <= k < name.len() && name[k] == 0u8;
                lemma_join_bytes(parts, k);
                let (i, j) = choose|i: int, j: int|
                    0 <= i < parts.len() && 0 <= j < parts[i].len() && #[trigger] parts[i][j]
                        == name[k];
                assert(is_normal(parts[i]));
                assert(parts[i].contains(0u8));
            }
        }
        if name.len() > 0 {
            lemma_join_bytes(parts, 0);
            assert(parts[0][0] != SEPARATOR) by {
                if parts[0][0] == SEPARATOR {
                    assert(parts[0].contains(SEPARATOR));
                }
            }
        }
    }
}

/// Containment in either reading: wherever an entry is placed, every
/// component that leads there is a normal one.
pub proof fn lemma_located_is_contained(name: Seq<u8>, lenient: bool)
    ensures
        located(name, lenient) matches PlaceView::At(parts) ==> all_normal(parts),
{
    lemma_resolved_is_contained(name);
    if lenient && !name.contains(0u8) {
        lemma_split_components(name);
        lemma_walk_stays_normal(Some(Seq::empty()), split(name));
    }
}

/// Names in either reading: a name made of normal components, joined by
/// separators, is placed along exactly those components.
pub proof fn lemma_locate_join(parts: Seq<Seq<u8>>, lenient: bool)
    requires
        all_normal(parts),
    ensures
        located(join(parts), lenient) == PlaceView::At(parts),
{
    lemma_resolve_join(parts);
    let name = join(parts);
    if parts.len() > 0 {
        assert forall|i: int| 0 <= i < parts.len() implies !(#[trigger] parts[i]).contains(
            SEPARATOR,
        ) by {
            assert(is_normal(parts[i]));
        }
        lemma_split_join(parts);
        if any_parent(parts) {
            let i = choose|i: int| 0 <= i < parts.len() && is_parent(#[trigger] parts[i]);
            assert(is_normal(parts[i]));
        }
    } else {
        assert(name =~= Seq::<u8>::empty());
        assert(split(name) =~= seq![Seq::<u8>::empty()]);
        if any_parent(split(name)) {
            let i = choose|i: int|
                0 <= i < split(name).len() && is_parent(#[trigger] split(name)[i]);
            assert(split(name)[i] =~= Seq::<u8>::empty());
        }
    }
}

} // verus!
