//! Keymap handling.
//!
//! Turns an XKB keymap into a reverse mapping from keysyms to the keycodes and
//! modifiers that produce them.

use std::collections::HashMap;

use vstd::prelude::*;

use crate::compiler;

verus! {

broadcast use vstd::std_specs::hash::group_hash_axioms;

/// A key combination that produces a specific keysym.
#[derive(Debug, Clone, Copy, PartialEq, Eq, Hash, Structural)]
pub struct KeyCombination {
    pub keycode: u32,
    pub modifiers: u32,
}

/// How many bits of `n` are set.
pub open spec fn ones(n: u32) -> nat
    decreases n,
{
    if n == 0 {
        0
    } else {
        (n % 2) as nat + ones(n / 2)
    }
}

/// A number has at most as many set bits as it counts.
proof fn lemma_ones_bound(n: u32)
    ensures
        ones(n) <= n,
    decreases n,
{
    if n != 0 {
        lemma_ones_bound(n / 2);
    }
}

/// Counts the bits of `n` that are set.
pub fn count_ones(n: u32) -> (count: u32)
    ensures
        count == ones(n),
{
    let mut rest: u32 = n;
    let mut count: u32 = 0;
    proof {
        lemma_ones_bound(n);
    }
    while rest != 0
        invariant
            count + ones(rest) == ones(n),
            ones(n) <= n,
        decreases rest,
    {
        count = count + rest % 2;
        rest = rest / 2;
    }
    count
}

/// The modifier combinations that are tried with each keycode: all of Shift, Lock,
/// Control and Mod1 to Mod5, which are the low eight bits of a modifier mask.
pub open spec fn tried_modifiers() -> Seq<u32> {
    Seq::new(256, |i: int| i as u32)
}

/// The key combinations that a keymap is searched for, in the order of the search:
/// the keycodes from 8 to 255, and with each of them the modifiers in turn.
pub open spec fn searched() -> Seq<KeyCombination> {
    Seq::new(
        248 * 256,
        |i: int|
            KeyCombination { keycode: (8 + i / 256) as u32, modifiers: tried_modifiers()[i % 256] },
    )
}

/// Whether a key combination produces `keysym` under the default group of a table.
pub open spec fn produces(
    keysyms: Map<(u32, u32, u32), u32>,
    combination: KeyCombination,
    keysym: u32,
) -> bool {
    keysyms.get((0, combination.modifiers, combination.keycode)) == Some(keysym)
}

/// Those of the combinations that produce `keysym`, in the same order.
pub open spec fn producing(
    keysyms: Map<(u32, u32, u32), u32>,
    combinations: Seq<KeyCombination>,
    keysym: u32,
) -> Seq<KeyCombination> {
    combinations.filter(|c: KeyCombination| produces(keysyms, c, keysym))
}

/// The reverse mapping of a table, restricted to some combinations: every keysym
/// but `NoSymbol` (0) that one of them produces, with all that produce it.
pub open spec fn reverse(
    keysyms: Map<(u32, u32, u32), u32>,
    combinations: Seq<KeyCombination>,
) -> Map<u32, Seq<KeyCombination>> {
    Map::new(
        |keysym: u32| keysym != 0 && producing(keysyms, combinations, keysym).len() > 0,
        |keysym: u32| producing(keysyms, combinations, keysym),
    )
}

/// The reverse mapping after one more combination, which produces `keysym`.
pub open spec fn recorded(
    map: Map<u32, Seq<KeyCombination>>,
    keysym: Option<u32>,
    combination: KeyCombination,
) -> Map<u32, Seq<KeyCombination>> {
    match keysym {
        Some(k) if k != 0 => {
            let known = if map.contains_key(k) {
                map[k]
            } else {
                Seq::empty()
            };
            map.insert(k, known.push(combination))
        },
        _ => map,
    }
}

/// Extending the searched combinations by one is recording that one.
proof fn lemma_reverse_step(
    keysyms: Map<(u32, u32, u32), u32>,
    combinations: Seq<KeyCombination>,
    next: KeyCombination,
)
    ensures
        reverse(keysyms, combinations.push(next)) == recorded(
            reverse(keysyms, combinations),
            keysyms.get((0, next.modifiers, next.keycode)),
            next,
        ),
{
    let before = reverse(keysyms, combinations);
    let after = reverse(keysyms, combinations.push(next));
    let expected = recorded(before, keysyms.get((0, next.modifiers, next.keycode)), next);
    assert forall|keysym: u32|
        #![trigger producing(keysyms, combinations.push(next), keysym)]
        producing(keysyms, combinations.push(next), keysym) == if produces(keysyms, next, keysym) {
            producing(keysyms, combinations, keysym).push(next)
        } else {
            producing(keysyms, combinations, keysym)
        } by {
        assert(combinations.push(next).drop_last() == combinations);
        reveal_with_fuel(Seq::filter, 2);
    }
    assert forall|keysym: u32| after.contains_key(keysym) <==> expected.contains_key(keysym) by {
        assert(producing(keysyms, combinations.push(next), keysym).len() >= 0);
    }
    assert forall|keysym: u32| after.contains_key(keysym) implies after[keysym]
        == expected[keysym] by {
        assert(producing(keysyms, combinations.push(next), keysym).len() >= 0);
        if !before.contains_key(keysym) {
            assert(producing(keysyms, combinations, keysym) =~= Seq::<KeyCombination>::empty());
        }
    }
    assert(after =~= expected);
}

/// Every keysym is a real one, has a combination, and has only combinations with an
/// X11 keycode that corresponds to an evdev keycode.
pub open spec fn reverse_map_wf(map: Map<u32, Seq<KeyCombination>>) -> bool {
    forall|keysym: u32| #[trigger]
        map.contains_key(keysym) ==> {
            &&& keysym != 0
            &&& map[keysym].len() > 0
            &&& forall|i: int|
                0 <= i < map[keysym].len() ==> 8 <= (#[trigger] map[keysym][i]).keycode < 256
        }
}

/// Whether the combination at `index` is the one to prefer: no other has fewer
/// modifiers, and none before it has as few.
pub open spec fn is_simplest(combinations: Seq<KeyCombination>, index: int) -> bool {
    &&& 0 <= index < combinations.len()
    &&& forall|j: int|
        0 <= j < combinations.len() ==> ones(combinations[index].modifiers) <= ones(
            #[trigger] combinations[j].modifiers,
        )
    &&& forall|j: int|
        0 <= j < index ==> ones(combinations[index].modifiers) < ones(
            #[trigger] combinations[j].modifiers,
        )
}

/// The combination to use for a keysym, where the reverse mapping has any.
pub open spec fn simplest_combination(
    map: Map<u32, Seq<KeyCombination>>,
    keysym: u32,
) -> Option<KeyCombination> {
    if map.contains_key(keysym) && map[keysym].len() > 0 {
        Some(map[keysym][choose|i: int| is_simplest(map[keysym], i)])
    } else {
        None
    }
}

/// A sequence of combinations that is not empty has a simplest one.
proof fn lemma_simplest_exists(combinations: Seq<KeyCombination>) -> (index: int)
    requires
        combinations.len() > 0,
    ensures
        is_simplest(combinations, index),
    decreases combinations.len(),
{
    if combinations.len() == 1 {
        0
    } else {
        let rest = combinations.drop_last();
        let index = lemma_simplest_exists(rest);
        assert(forall|j: int| 0 <= j < rest.len() ==> rest[j] == combinations[j]);
        if ones(combinations.last().modifiers) < ones(combinations[index].modifiers) {
            combinations.len() - 1
        } else {
            index
        }
    }
}

/// The combination that a well-formed reverse mapping gives has an X11 keycode.
pub proof fn simplest_has_x11_keycode(map: Map<u32, Seq<KeyCombination>>, keysym: u32)
    requires
        reverse_map_wf(map),
    ensures
        simplest_combination(map, keysym) matches Some(c) ==> 8 <= c.keycode < 256,
{
    if simplest_combination(map, keysym) is Some {
        lemma_simplest_exists(map[keysym]);
    }
}

/// The reverse mapping undoes the keymap: the combination that it gives for a keysym
/// produces that keysym, and no searched one with fewer modifiers does.
pub proof fn lookup_inverts_keymap(
    keysyms: Map<(u32, u32, u32), u32>,
    keysym: u32,
    combination: KeyCombination,
)
    requires
        simplest_combination(reverse(keysyms, searched()), keysym) == Some(combination),
    ensures
        keysym != 0,
        produces(keysyms, combination, keysym),
        searched().contains(combination),
        forall|other: KeyCombination| #[trigger]
            searched().contains(other) && produces(keysyms, other, keysym) ==> ones(
                combination.modifiers,
            ) <= ones(other.modifiers),
{
    broadcast use vstd::seq_lib::group_filter_ensures;

    let pred = |c: KeyCombination| produces(keysyms, c, keysym);
    let found = producing(keysyms, searched(), keysym);
    lemma_simplest_exists(found);
    let index = choose|i: int| is_simplest(found, i);
    assert(found[index] == combination);
    assert(pred(found[index]));
    searched().lemma_filter_contains_rev(pred, combination);
    assert forall|other: KeyCombination| #[trigger]
        searched().contains(other) && produces(keysyms, other, keysym) implies ones(
        combination.modifiers,
    ) <= ones(other.modifiers) by {
        let i = choose|i: int| 0 <= i < searched().len() && searched()[i] == other;
        assert(pred(searched()[i]));
        assert(found.contains(other));
    }
}

/// The reverse mapping misses nothing: whatever keysym but `NoSymbol` an X11 keycode
/// produces, with whatever combination of the eight modifiers, has that combination.
pub proof fn every_combination_is_recorded(
    keysyms: Map<(u32, u32, u32), u32>,
    keysym: u32,
    combination: KeyCombination,
)
    requires
        keysym != 0,
        8 <= combination.keycode < 256,
        combination.modifiers < 256,
        produces(keysyms, combination, keysym),
    ensures
        reverse(keysyms, searched()).contains_key(keysym),
        reverse(keysyms, searched())[keysym].contains(combination),
{
    broadcast use vstd::seq_lib::group_filter_ensures;

    searched_combinations(combination);
    let pred = |c: KeyCombination| produces(keysyms, c, keysym);
    let i = choose|i: int| 0 <= i < searched().len() && searched()[i] == combination;
    assert(pred(searched()[i]));
    assert(producing(keysyms, searched(), keysym).contains(combination));
}

/// The lookup finds a combination for every keysym but `NoSymbol` that a searched
/// combination produces.
pub proof fn lookup_finds_every_keysym(
    keysyms: Map<(u32, u32, u32), u32>,
    keysym: u32,
    combination: KeyCombination,
)
    requires
        keysym != 0,
        searched().contains(combination),
        produces(keysyms, combination, keysym),
    ensures
        simplest_combination(reverse(keysyms, searched()), keysym) is Some,
{
    searched_combinations(combination);
    every_combination_is_recorded(keysyms, keysym, combination);
}

/// The search tries every X11 keycode with every combination of the eight modifiers.
pub proof fn searched_combinations(combination: KeyCombination)
    ensures
        searched().contains(combination) <==> 8 <= combination.keycode < 256
            && combination.modifiers < 256,
{
    if 8 <= combination.keycode < 256 && combination.modifiers < 256 {
        let i = (combination.keycode - 8) * 256 + combination.modifiers;
        assert(searched()[i] == combination);
    }
    if searched().contains(combination) {
        let i = choose|i: int| 0 <= i < searched().len() && searched()[i] == combination;
        assert(tried_modifiers()[i % 256] == combination.modifiers);
    }
}

/// Why no keymap processor could be made.
#[derive(Debug, Clone, Copy, PartialEq, Eq, Structural)]
pub enum KeymapError {
    /// The keymap could not be parsed.
    Parse,
}

/// Keymap processor that maintains a reverse mapping from keysyms to key codes.
#[derive(Debug)]
pub struct KeymapProcessor {
    reverse_map: HashMap<u32, Vec<KeyCombination>>,
}

impl View for KeymapProcessor {
    type V = Map<u32, Seq<KeyCombination>>;

    closed spec fn view(&self) -> Map<u32, Seq<KeyCombination>> {
        self.reverse_map@.map_values(|combinations: Vec<KeyCombination>| combinations@)
    }
}

impl KeymapProcessor {
    /// The reverse mapping is well-formed.
    pub open spec fn wf(&self) -> bool {
        reverse_map_wf(self@)
    }

    /// A reverse mapping without any keysym.
    pub fn empty() -> (processor: KeymapProcessor)
        ensures
            processor.wf(),
            processor@ == Map::<u32, Seq<KeyCombination>>::empty(),
    {
        let processor = KeymapProcessor { reverse_map: HashMap::new() };
        assert(processor@ =~= Map::<u32, Seq<KeyCombination>>::empty());
        processor
    }

    /// Records that a combination produces `keysym`, or no keysym at all.
    pub fn record(&mut self, keysym: Option<u32>, combination: KeyCombination)
        requires
            old(self).wf(),
            8 <= combination.keycode < 256,
        ensures
            final(self).wf(),
            final(self)@ == recorded(old(self)@, keysym, combination),
    {
        if let Some(keysym_raw) = keysym {
            if keysym_raw != 0 {
                let mut combinations = match self.reverse_map.remove(&keysym_raw) {
                    Some(combinations) => combinations,
                    None => Vec::new(),
                };
                combinations.push(combination);
                self.reverse_map.insert(keysym_raw, combinations);
                assert(self@ =~= recorded(old(self)@, keysym, combination));
            }
        }
    }

    /// Builds the reverse mapping of a keymap from its bytes, in the XKB text format.
    ///
    /// The bytes alone decide whether this succeeds. Where they have include
    /// statements, the files on the include path have a say in which keymap it is.
    pub fn new(keymap_bytes: &[u8]) -> (result: Result<KeymapProcessor, KeymapError>)
        ensures
            result is Ok <==> compiler::keymap_text_accepted(keymap_bytes@),
            result matches Ok(processor) ==> {
                &&& processor.wf()
                &&& exists|keysyms: Map<(u32, u32, u32), u32>| #[trigger]
                    compiler::compilations(keymap_bytes@).contains(keysyms) && processor@
                        == reverse(keysyms, searched())
            },
    {
        match compiler::compile_keymap(keymap_bytes) {
            Ok(keymap) => {
                let lookup_table = compiler::build_lookup_table(&keymap);
                Ok(Self::build_reverse_map(&lookup_table))
            },
            Err(_) => Err(KeymapError::Parse),
        }
    }

    /// Builds the reverse mapping of a lookup table.
    ///
    /// Tries each keycode with each modifier combination, under the default group.
    pub fn build_reverse_map(lookup_table: &kbvm::lookup::LookupTable) -> (processor:
        KeymapProcessor)
        ensures
            processor.wf(),
            processor@ == reverse(compiler::table_keysyms(*lookup_table), searched()),
    {
        let ghost keysyms = compiler::table_keysyms(*lookup_table);
        let mut processor = Self::empty();
        assert(reverse(keysyms, searched().take(0)) =~= processor@);
        let mut keycode: u32 = 8;
        while keycode < 256
            invariant
                8 <= keycode <= 256,
                keysyms == compiler::table_keysyms(*lookup_table),
                processor.wf(),
                processor@ == reverse(keysyms, searched().take((keycode - 8) * 256)),
            decreases 256 - keycode,
        {
            let mut modifiers: u32 = 0;
            while modifiers < 256
                invariant
                    8 <= keycode < 256,
                    modifiers <= 256,
                    keysyms == compiler::table_keysyms(*lookup_table),
                    processor.wf(),
                    processor@ == reverse(keysyms, searched().take((keycode - 8) * 256 + modifiers)),
                decreases 256 - modifiers,
            {
                let combination = KeyCombination { keycode, modifiers };
                let keysym = compiler::first_keysym(lookup_table, 0, modifiers, keycode);
                processor.record(keysym, combination);
                proof {
                    let n = (keycode - 8) * 256 + modifiers;
                    assert(searched()[n] == combination);
                    assert(searched().take(n + 1) =~= searched().take(n).push(combination));
                    lemma_reverse_step(keysyms, searched().take(n), combination);
                }
                modifiers = modifiers + 1;
            }
            keycode = keycode + 1;
        }
        assert(searched().take(searched().len() as int) =~= searched());
        processor
    }

    /// Looks up the key combination needed to produce a keysym.
    ///
    /// If several combinations produce it, prefers the simplest one, that is the first
    /// of those with the fewest modifiers.
    pub fn lookup_keysym(&self, keysym: u32) -> (combination: Option<KeyCombination>)
        ensures
            combination == simplest_combination(self@, keysym),
    {
        match self.reverse_map.get(&keysym) {
            None => None,
            Some(combinations) => {
                if combinations.len() == 0 {
                    return None;
                }
                let mut best: usize = 0;
                let mut best_ones: u32 = count_ones(combinations[0].modifiers);
                let mut i: usize = 1;
                while i < combinations.len()
                    invariant
                        0 <= best < i <= combinations.len(),
                        best_ones == ones(combinations[best as int].modifiers),
                        is_simplest(combinations@.take(i as int), best as int),
                    decreases combinations.len() - i,
                {
                    let next_ones = count_ones(combinations[i].modifiers);
                    if next_ones < best_ones {
                        best = i;
                        best_ones = next_ones;
                    }
                    i = i + 1;
                }
                assert(combinations@.take(i as int) =~= combinations@);
                assert(self@[keysym] == combinations@);
                assert(is_simplest(self@[keysym], best as int));
                Some(combinations[best])
            },
        }
    }
}

/// Every bit counts once, wherever it stands.
pub proof fn set_bits_in_full(n: u32)
    requires
        n <= 0x7fff_ffff,
    ensures
        ones(0) == 0,
        ones((2 * n) as u32) == ones(n),
        ones((2 * n + 1) as u32) == ones(n) + 1,
{
    assert((2 * n) as u32 / 2 == n);
    assert((2 * n + 1) as u32 / 2 == n);
}

/// Recording a keysym puts its combination behind those that it has already, and leaves
/// all other keysyms alone. `NoSymbol`, or no keysym at all, is not recorded.
pub proof fn recording_in_full(
    map: Map<u32, Seq<KeyCombination>>,
    keysym: u32,
    combination: KeyCombination,
    other: u32,
)
    requires
        keysym != 0,
        other != keysym,
    ensures
        ({
            let after = recorded(map, Some(keysym), combination);
            &&& after.contains_key(keysym)
            &&& after[keysym].len() > 0
            &&& after[keysym].last() == combination
            &&& map.contains_key(keysym) ==> after[keysym].drop_last() == map[keysym]
            &&& !map.contains_key(keysym) ==> after[keysym].len() == 1
            &&& after.contains_key(other) == map.contains_key(other)
            &&& map.contains_key(other) ==> after[other] == map[other]
        }),
        recorded(map, None, combination) == map,
        recorded(map, Some(0), combination) == map,
{
    let after = recorded(map, Some(keysym), combination);
    if map.contains_key(keysym) {
        assert(after[keysym].drop_last() =~= map[keysym]);
    }
}

/// The combination to use is the first of those with the fewest modifiers, and there is
/// one wherever the keysym has any.
pub proof fn preference_in_full(map: Map<u32, Seq<KeyCombination>>, keysym: u32)
    ensures
        match simplest_combination(map, keysym) {
            Some(c) => {
                &&& map.contains_key(keysym)
                &&& exists|i: int|
                    {
                        &&& 0 <= i < map[keysym].len()
                        &&& #[trigger] map[keysym][i] == c
                        &&& forall|j: int|
                            0 <= j < map[keysym].len() ==> {
                                let other = #[trigger] map[keysym][j];
                                &&& ones(c.modifiers) <= ones(other.modifiers)
                                &&& j < i ==> ones(c.modifiers) < ones(other.modifiers)
                            }
                    }
            },
            None => !map.contains_key(keysym) || map[keysym].len() == 0,
        },
{
    if let Some(c) = simplest_combination(map, keysym) {
        lemma_simplest_exists(map[keysym]);
        let i = choose|i: int| is_simplest(map[keysym], i);
        assert(map[keysym][i] == c);
        assert forall|j: int| 0 <= j < map[keysym].len() implies {
            let other = #[trigger] map[keysym][j];
            &&& ones(c.modifiers) <= ones(other.modifiers)
            &&& j < i ==> ones(c.modifiers) < ones(other.modifiers)
        } by {
            assert(map[keysym][j].modifiers == map[keysym][j].modifiers);
        }
    }
}

/// How many of the first `n` items pass.
spec fn passed(s: Seq<KeyCombination>, pred: spec_fn(KeyCombination) -> bool, n: int) -> int {
    s.take(n).filter(pred).len() as int
}

/// One more item passes or does not.
proof fn lemma_passed_step(
    s: Seq<KeyCombination>,
    pred: spec_fn(KeyCombination) -> bool,
    n: int,
)
    requires
        0 <= n < s.len(),
    ensures
        s.take(n + 1).filter(pred) == if pred(s[n]) {
            s.take(n).filter(pred).push(s[n])
        } else {
            s.take(n).filter(pred)
        },
{
    assert(s.take(n + 1).drop_last() =~= s.take(n));
    reveal_with_fuel(Seq::filter, 2);
}

/// An item that passes stands behind those before it that pass.
proof fn lemma_place(
    s: Seq<KeyCombination>,
    pred: spec_fn(KeyCombination) -> bool,
    j: int,
    n: int,
)
    requires
        0 <= j < n <= s.len(),
        pred(s[j]),
    ensures
        passed(s, pred, j) < passed(s, pred, n),
        s.take(n).filter(pred)[passed(s, pred, j)] == s[j],
    decreases n,
{
    lemma_passed_step(s, pred, n - 1);
    if j < n - 1 {
        lemma_place(s, pred, j, n - 1);
    }
}

/// Whatever has passed is one of the items, at its place.
proof fn lemma_origin(
    s: Seq<KeyCombination>,
    pred: spec_fn(KeyCombination) -> bool,
    place: int,
    n: int,
) -> (j: int)
    requires
        0 <= n <= s.len(),
        0 <= place < passed(s, pred, n),
    ensures
        0 <= j < n,
        passed(s, pred, j) == place,
        s.take(n).filter(pred)[place] == s[j],
    decreases n,
{
    if n == 0 {
        assert(s.take(0).filter(pred).len() == 0) by {
            reveal_with_fuel(Seq::filter, 1);
        }
        0
    } else {
        lemma_passed_step(s, pred, n - 1);
        if place == passed(s, pred, n - 1) {
            n - 1
        } else {
            lemma_origin(s, pred, place, n - 1)
        }
    }
}

/// The lookup in full: the combination that is found produces the keysym under the default
/// group; of all that do, with any X11 keycode and any of the eight modifiers, it has the
/// fewest modifiers, then the lowest keycode, then the lowest modifiers. None is found only
/// where none does.
pub proof fn lookup_in_full(
    keysyms: Map<(u32, u32, u32), u32>,
    keysym: u32,
    keycode: u32,
    modifiers: u32,
)
    ensures
        match simplest_combination(reverse(keysyms, searched()), keysym) {
            Some(c) => {
                &&& keysym != 0
                &&& 8 <= c.keycode <= 255
                &&& c.modifiers <= 255
                &&& keysyms.contains_pair((0, c.modifiers, c.keycode), keysym)
                &&& 8 <= keycode <= 255 && modifiers <= 255 && keysyms.contains_pair(
                    (0, modifiers, keycode),
                    keysym,
                ) ==> {
                    ||| ones(c.modifiers) < ones(modifiers)
                    ||| ones(c.modifiers) == ones(modifiers) && c.keycode < keycode
                    ||| ones(c.modifiers) == ones(modifiers) && c.keycode == keycode
                        && c.modifiers <= modifiers
                }
            },
            None => keysym == 0 || !(8 <= keycode <= 255 && modifiers <= 255
                && keysyms.contains_pair((0, modifiers, keycode), keysym)),
        },
{
    let other = KeyCombination { keycode, modifiers };
    let pred = |c: KeyCombination| produces(keysyms, c, keysym);
    let found = producing(keysyms, searched(), keysym);
    assert(searched().take(searched().len() as int) =~= searched());
    let made = 8 <= keycode <= 255 && modifiers <= 255 && keysyms.contains_pair(
        (0, modifiers, keycode),
        keysym,
    );
    let at = (keycode - 8) * 256 + modifiers;
    if made {
        assert(searched()[at] == other);
        assert(pred(searched()[at]));
        lemma_place(searched(), pred, at, searched().len() as int);
    }
    if let Some(c) = simplest_combination(reverse(keysyms, searched()), keysym) {
        lookup_inverts_keymap(keysyms, keysym, c);
        searched_combinations(c);
        let from = (c.keycode - 8) * 256 + c.modifiers;
        assert(searched()[from] == c);
        assert(pred(searched()[from]));
        lemma_place(searched(), pred, from, searched().len() as int);
        if made {
            searched_combinations(other);
            lemma_simplest_exists(found);
            let i = choose|i: int| is_simplest(found, i);
            assert(found[i] == c);
            let place = passed(searched(), pred, at);
            assert(found[place] == other);
            assert(found[place].modifiers == modifiers);
            if ones(c.modifiers) == ones(modifiers) {
                assert(i <= place);
                let j = lemma_origin(searched(), pred, i, searched().len() as int);
                // The search tries each combination once.
                assert(searched()[j] == c);
                assert(j == from);
                if at < from {
                    lemma_place(searched(), pred, at, from);
                }
            }
        }
    }
}

/// A keymap is made of every text that compiles to anything, and of no other: the reverse of
/// one of the keymaps that the text can be compiled to.
pub proof fn keymaps_in_full(
    keymap_bytes: &[u8],
    result: Result<KeymapProcessor, KeymapError>,
)
    requires
        call_ensures(KeymapProcessor::new, (keymap_bytes,), result),
    ensures
        result is Ok <==> compiler::compilations(keymap_bytes@) != Set::<
            Map<(u32, u32, u32), u32>,
        >::empty(),
        result matches Ok(processor) ==> exists|keysyms: Map<(u32, u32, u32), u32>| #[trigger]
            compiler::compilations(keymap_bytes@).contains(keysyms) && processor@ == reverse(
                keysyms,
                searched(),
            ),
{
    let all = compiler::compilations(keymap_bytes@);
    if !compiler::keymap_text_accepted(keymap_bytes@) {
        assert(all =~= Set::empty());
    }
}

/// The reverse mapping of a lookup table is that of what the table holds.
pub proof fn tables_in_full(
    lookup_table: &kbvm::lookup::LookupTable,
    processor: KeymapProcessor,
)
    requires
        call_ensures(KeymapProcessor::build_reverse_map, (lookup_table,), processor),
    ensures
        processor@ == reverse(compiler::table_keysyms(*lookup_table), searched()),
{
}

} // verus!
