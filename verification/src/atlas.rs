//! The atlas builder and the keyed index.
//!
//! Given a parsed descriptor and the pixel dimensions of the already-decoded
//! sheet image, [`build`] computes each sub-texture's rectangle, appends it
//! to a dense slot table in declaration order, and binds the sub-texture's
//! name to that slot.  A name declared twice keeps only its last slot
//! reachable by name (last write wins); the earlier slot stays in the table,
//! unnamed.

use vstd::prelude::*;

use crate::coord::{Rect, MICROS_PER_PIXEL};
use crate::descriptor::{
    config_in_range, rect_of, sub_in_range, subs_view, ConfigV, KeyedTextureAtlasConfig,
    SubTexture, SubV,
};
use crate::util::{bytes_eq, copy_bytes};

verus! {

/// One binding of the name index.
#[derive(Debug)]
struct KeyEntry {
    name: Vec<u8>,
    slot: usize,
}

/// The name index of a keyed atlas: a finite mapping from sprite names to
/// slot indices, where a repeated insertion under one name replaces the
/// earlier binding: the last write wins.
#[derive(Debug)]
pub struct KeyTable {
    entries: Vec<KeyEntry>,
}

/// The mapping that a sequence of bindings denotes, later bindings
/// overriding earlier ones.
spec fn key_map(es: Seq<KeyEntry>) -> Map<Seq<u8>, int>
    decreases es.len(),
{
    if es.len() == 0 {
        Map::empty()
    } else {
        key_map(es.drop_last()).insert(es.last().name@, es.last().slot as int)
    }
}

proof fn lemma_key_map_found(es: Seq<KeyEntry>, i: int)
    requires
        0 <= i < es.len(),
        forall|j: int| i < j < es.len() ==> (#[trigger] es[j]).name@ != es[i].name@,
    ensures
        key_map(es).dom().contains(es[i].name@),
        key_map(es)[es[i].name@] == es[i].slot as int,
    decreases es.len(),
{
    if i < es.len() - 1 {
        assert(es.drop_last()[i] == es[i]);
        lemma_key_map_found(es.drop_last(), i);
    }
}

proof fn lemma_key_map_absent(es: Seq<KeyEntry>, n: Seq<u8>)
    requires
        forall|j: int| 0 <= j < es.len() ==> (#[trigger] es[j]).name@ != n,
    ensures
        !key_map(es).dom().contains(n),
    decreases es.len(),
{
    if es.len() > 0 {
        lemma_key_map_absent(es.drop_last(), n);
    }
}

impl View for KeyTable {
    type V = Map<Seq<u8>, int>;

    closed spec fn view(&self) -> Map<Seq<u8>, int> {
        key_map(self.entries@)
    }
}

impl KeyTable {
    /// An index binding no names.
    pub fn new() -> (r: KeyTable)
        ensures
            r@ == Map::<Seq<u8>, int>::empty(),
    {
        KeyTable { entries: Vec::new() }
    }

    /// Binds `name` to `slot`, replacing any earlier binding of the same
    /// name: the last write wins.
    pub fn insert(&mut self, name: Vec<u8>, slot: usize)
        ensures
            final(self)@ == old(self)@.insert(name@, slot as int),
    {
        self.entries.push(KeyEntry { name, slot });
        proof {
            assert(self.entries@.drop_last() =~= old(self).entries@);
        }
    }

    /// The slot bound to `name`, if any: that of the latest insertion under
    /// `name`.
    pub fn get(&self, name: &[u8]) -> (r: Option<usize>)
        ensures
            r matches Some(s) ==> self@.dom().contains(name@) && self@[name@] == s as int,
            r is None ==> !self@.dom().contains(name@),
    {
        let mut i: usize = self.entries.len();
        while i > 0
            invariant
                i <= self.entries@.len(),
                forall|j: int| i <= j < self.entries@.len() ==> (#[trigger] self.entries@[j]).name@
                    != name@,
            decreases i,
    {
            i -= 1;
            if bytes_eq(self.entries[i].name.as_slice(), name) {
                proof {
                    lemma_key_map_found(self.entries@, i as int);
                }
                return Some(self.entries[i].slot);
            }
        }
        proof {
            lemma_key_map_absent(self.entries@, name@);
        }
        None
    }
}

/// The packed atlas geometry: the sheet's pixel dimensions and one
/// rectangle per slot, in slot order.  The decoded pixel data itself stays
/// with the caller, which may share it with other consumers.
#[derive(Debug)]
pub struct TextureAtlas {
    pub width: u32,
    pub height: u32,
    pub textures: Vec<Rect>,
}

impl TextureAtlas {
    /// An atlas over a sheet of the given pixel dimensions, with no slots.
    pub fn new_empty(width: u32, height: u32) -> (r: TextureAtlas)
        ensures
            r.width == width,
            r.height == height,
            r.textures@.len() == 0,
    {
        TextureAtlas { width, height, textures: Vec::new() }
    }

    /// Appends `rect` as the next slot and returns that slot's index.
    pub fn add_texture(&mut self, rect: Rect) -> (idx: usize)
        ensures
            final(self).textures@ == old(self).textures@.push(rect),
            idx as int == old(self).textures@.len(),
            final(self).width == old(self).width,
            final(self).height == old(self).height,
    {
        let idx = self.textures.len();
        self.textures.push(rect);
        idx
    }

    /// How many slots the atlas holds.
    pub fn slot_count(&self) -> (n: usize)
        ensures
            n as int == self.textures@.len(),
    {
        self.textures.len()
    }

    /// The rectangle at `slot`, or `None` when `slot` is out of range.
    pub fn rect_at(&self, slot: usize) -> (r: Option<Rect>)
        ensures
            r == (if (slot as int) < self.textures@.len() {
                Some(self.textures@[slot as int])
            } else {
                None::<Rect>
            }),
    {
        if slot < self.textures.len() {
            Some(self.textures[slot])
        } else {
            None
        }
    }
}

/// A texture atlas with named sprites: the packed geometry plus a
/// name-to-slot index with dense slots assigned in declaration order.
#[derive(Debug)]
pub struct KeyedTextureAtlas {
    pub keys: KeyTable,
    pub atlas: TextureAtlas,
}

impl KeyedTextureAtlas {
    /// The slot index of the sprite named `key`, or `None` when no sprite
    /// of that name is reachable.
    pub fn get_sprite(&self, key: &[u8]) -> (r: Option<usize>)
        ensures
            r matches Some(s) ==> self.keys@.dom().contains(key@) && self.keys@[key@] == s as int,
            r is None ==> !self.keys@.dom().contains(key@),
    {
        self.keys.get(key)
    }

    /// The slot and rectangle of the sprite named `key`; `None` when the
    /// name is unknown or its slot lies outside the table.
    pub fn lookup(&self, key: &[u8]) -> (r: Option<(usize, Rect)>)
        ensures
            r matches Some(p) ==> self.keys@.dom().contains(key@) && self.keys@[key@] == p.0 as int
                && (p.0 as int) < self.atlas.textures@.len() && p.1 == self.atlas.textures@[p.0 as int],
            r is None ==> !self.keys@.dom().contains(key@) || !(0 <= self.keys@[key@]
                < self.atlas.textures@.len()),
    {
        match self.keys.get(key) {
            Some(slot) => match self.atlas.rect_at(slot) {
                Some(rect) => Some((slot, rect)),
                None => None,
            },
            None => None,
        }
    }
}

/// The name-to-slot mapping that building `subs` yields: each name maps to
/// the slot of its last declaration.
pub open spec fn keys_of(subs: Seq<SubV>) -> Map<Seq<u8>, int>
    decreases subs.len(),
{
    if subs.len() == 0 {
        Map::empty()
    } else {
        keys_of(subs.drop_last()).insert(subs.last().name, subs.len() - 1)
    }
}

/// True when the rectangle of `s` lies inside an image of `width` by
/// `height` pixels.
pub open spec fn rect_within(s: SubV, width: u32, height: u32) -> bool {
    &&& 0 <= s.x
    &&& 0 <= s.y
    &&& s.x + s.width <= (width as int) * (MICROS_PER_PIXEL as int)
    &&& s.y + s.height <= (height as int) * (MICROS_PER_PIXEL as int)
}

/// The position of the first sub-texture at or after `i` whose rectangle
/// leaves the image bounds, if any.
pub open spec fn first_out_of_bounds_from(subs: Seq<SubV>, width: u32, height: u32, i: int) -> Option<int>
    decreases subs.len() - i,
{
    if i < 0 || i >= subs.len() {
        None
    } else if !rect_within(subs[i], width, height) {
        Some(i)
    } else {
        first_out_of_bounds_from(subs, width, height, i + 1)
    }
}

proof fn lemma_first_oob_here(subs: Seq<SubV>, width: u32, height: u32, i: int, k: int)
    requires
        0 <= i <= k < subs.len(),
        forall|j: int| i <= j < k ==> rect_within(#[trigger] subs[j], width, height),
        !rect_within(subs[k], width, height),
    ensures
        first_out_of_bounds_from(subs, width, height, i) == Some(k),
    decreases k - i,
{
    if i < k {
        lemma_first_oob_here(subs, width, height, i + 1, k);
    }
}

proof fn lemma_no_oob(subs: Seq<SubV>, width: u32, height: u32, i: int)
    requires
        0 <= i <= subs.len(),
        forall|j: int| i <= j < subs.len() ==> rect_within(#[trigger] subs[j], width, height),
    ensures
        first_out_of_bounds_from(subs, width, height, i) is None,
    decreases subs.len() - i,
{
    if i < subs.len() {
        lemma_no_oob(subs, width, height, i + 1);
    }
}

/// Law: a slot bound by name always addresses a slot of the table built
/// from the same declarations.
pub proof fn lemma_keys_of_range(subs: Seq<SubV>, n: Seq<u8>)
    requires
        keys_of(subs).dom().contains(n),
    ensures
        0 <= keys_of(subs)[n] < subs.len(),
    decreases subs.len(),
{
    if subs.len() > 0 && n != subs.last().name {
        lemma_keys_of_range(subs.drop_last(), n);
    }
}

/// Law: the last declaration wins.  When the sub-texture at `i` is the last
/// one bearing its name, that name is keyed exactly to slot `i`; any
/// earlier slot of the same name stays in the table but is unreachable by
/// name.
pub proof fn lemma_keys_of_last_write_wins(subs: Seq<SubV>, i: int)
    requires
        0 <= i < subs.len(),
        forall|j: int| i < j < subs.len() ==> (#[trigger] subs[j]).name != subs[i].name,
    ensures
        keys_of(subs).dom().contains(subs[i].name),
        keys_of(subs)[subs[i].name] == i,
    decreases subs.len(),
{
    if i < subs.len() - 1 {
        assert(subs.drop_last()[i] == subs[i]);
        lemma_keys_of_last_write_wins(subs.drop_last(), i);
    }
}

/// Law: a name is keyed if and only if some sub-texture declares it.
pub proof fn lemma_keys_of_domain(subs: Seq<SubV>, n: Seq<u8>)
    ensures
        keys_of(subs).dom().contains(n) <==> exists|i: int|
            0 <= i < subs.len() && (#[trigger] subs[i]).name == n,
    decreases subs.len(),
{
    if subs.len() > 0 {
        lemma_keys_of_domain(subs.drop_last(), n);
        if subs.last().name == n {
            assert(subs[subs.len() - 1].name == n);
        } else {
            if keys_of(subs).dom().contains(n) {
                let i = choose|i: int| 0 <= i < subs.drop_last().len() && (#[trigger] subs.drop_last()[i]).name == n;
                assert(subs[i].name == n);
            }
            if exists|i: int| 0 <= i < subs.len() && (#[trigger] subs[i]).name == n {
                let i = choose|i: int| 0 <= i < subs.len() && (#[trigger] subs[i]).name == n;
                assert(subs.drop_last()[i].name == n);
            }
        }
    }
}

/// Law: the index never keys more names than there are declarations; with
/// colliding names it keys strictly fewer, since a name keys only one slot.
pub proof fn lemma_keys_of_dom_len(subs: Seq<SubV>)
    ensures
        keys_of(subs).dom().finite(),
        keys_of(subs).dom().len() <= subs.len(),
    decreases subs.len(),
{
    if subs.len() > 0 {
        lemma_keys_of_dom_len(subs.drop_last());
        vstd::set::axiom_set_insert_len(keys_of(subs.drop_last()).dom(), subs.last().name);
    }
}

/// Law: with pairwise-distinct names the index keys exactly one name per
/// declaration.
pub proof fn lemma_keys_of_dom_len_unique(subs: Seq<SubV>)
    requires
        forall|i: int, j: int| 0 <= i < j < subs.len() ==> (#[trigger] subs[i]).name != (
        #[trigger] subs[j]).name,
    ensures
        keys_of(subs).dom().finite(),
        keys_of(subs).dom().len() == subs.len(),
    decreases subs.len(),
{
    if subs.len() > 0 {
        assert(forall|i: int, j: int|
            0 <= i < j < subs.drop_last().len() ==> (#[trigger] subs.drop_last()[i]).name != (
            #[trigger] subs.drop_last()[j]).name);
        lemma_keys_of_dom_len_unique(subs.drop_last());
        lemma_keys_of_domain(subs.drop_last(), subs.last().name);
        assert(forall|i: int| 0 <= i < subs.len() - 1 ==> (#[trigger] subs.drop_last()[i]).name
            != subs.last().name) by {
            assert(forall|i: int| 0 <= i < subs.len() - 1 ==> (#[trigger] subs.drop_last()[i])
                == subs[i]);
        }
        vstd::set::axiom_set_insert_len(keys_of(subs.drop_last()).dom(), subs.last().name);
    }
}

/// Law: with pairwise-distinct names, building `[A, B, C]` keys `A` to slot
/// 0, `B` to 1, `C` to 2: each declaration keys its own position.
pub proof fn lemma_keys_of_order_preserved(subs: Seq<SubV>)
    requires
        forall|i: int, j: int| 0 <= i < j < subs.len() ==> (#[trigger] subs[i]).name != (
        #[trigger] subs[j]).name,
    ensures
        forall|i: int| 0 <= i < subs.len() ==> keys_of(subs).dom().contains(
            (#[trigger] subs[i]).name,
        ) && keys_of(subs)[subs[i].name] == i,
{
    assert forall|i: int| 0 <= i < subs.len() implies keys_of(subs).dom().contains(
        (#[trigger] subs[i]).name,
    ) && keys_of(subs)[subs[i].name] == i by {
        lemma_keys_of_last_write_wins(subs, i);
    }
}

/// Law: an empty descriptor builds an atlas that keys nothing.
pub proof fn lemma_keys_of_empty(subs: Seq<SubV>)
    requires
        subs.len() == 0,
    ensures
        keys_of(subs) == Map::<Seq<u8>, int>::empty(),
{
}

/// Why a build failed.
#[derive(Debug, Clone, PartialEq, Eq)]
pub enum BuildError {
    /// Raised only in strict mode: the rectangle of the named sub-texture,
    /// at the given position in declaration order, extends beyond the image
    /// bounds.
    OutOfBounds { index: usize, name: Vec<u8> },
}

fn rect_within_check(sub: &SubTexture, width: u32, height: u32) -> (r: bool)
    requires
        sub_in_range(sub@),
    ensures
        r == rect_within(sub@, width, height),
{
    let wmax: i64 = (width as i64) * MICROS_PER_PIXEL;
    let hmax: i64 = (height as i64) * MICROS_PER_PIXEL;
    0 <= sub.x.micros && 0 <= sub.y.micros && sub.x.micros + sub.width.micros <= wmax
        && sub.y.micros + sub.height.micros <= hmax
}

/// Builds the keyed atlas for `config` against a decoded image of
/// `image_width` by `image_height` pixels.
///
/// Sub-textures are processed in declaration order: slot `i` holds the
/// rectangle of the `i`-th declaration, and each name is bound to the slot
/// of its last declaration.  An empty descriptor is not an error: it yields
/// an atlas with zero slots and an empty index.
///
/// With `strict` set, a rectangle that extends beyond the image bounds
/// fails the build with [`BuildError::OutOfBounds`] naming the first
/// offending declaration; without it, such rectangles are recorded as
/// declared.
pub fn build(
    config: &KeyedTextureAtlasConfig,
    image_width: u32,
    image_height: u32,
    strict: bool,
) -> (r: Result<KeyedTextureAtlas, BuildError>)
    requires
        config_in_range(config@),
    ensures
        ({
            let subs = config@.sub_textures;
            let oob = first_out_of_bounds_from(subs, image_width, image_height, 0);
            match r {
                Ok(a) => {
                    &&& strict ==> oob is None
                    &&& a.atlas.width == image_width
                    &&& a.atlas.height == image_height
                    &&& a.atlas.textures@.len() == subs.len()
                    &&& forall|i: int|
                        0 <= i < subs.len() ==> (#[trigger] a.atlas.textures@[i])@ == rect_of(
                            subs[i],
                        )
                    &&& a.keys@ == keys_of(subs)
                    &&& forall|n: Seq<u8>| a.keys@.dom().contains(n) ==> 0 <= #[trigger] a.keys@[n]
                        < a.atlas.textures@.len()
                },
                Err(BuildError::OutOfBounds { index, name }) => {
                    &&& strict
                    &&& oob == Some(index as int)
                    &&& name@ == subs[index as int].name
                },
            }
        }),
{
    let sub_count = config.sub_textures.len();
    let mut atlas = TextureAtlas::new_empty(image_width, image_height);
    let mut keys = KeyTable::new();
    let mut idx: usize = 0;
    proof {
        assert(config@.sub_textures.take(0) =~= Seq::<SubV>::empty());
    }
    while idx < sub_count
        invariant
            config_in_range(config@),
            sub_count == config.sub_textures@.len(),
            sub_count == config@.sub_textures.len(),
            0 <= idx <= sub_count,
            atlas.width == image_width,
            atlas.height == image_height,
            atlas.textures@.len() == idx,
            forall|i: int|
                0 <= i < idx ==> (#[trigger] atlas.textures@[i])@ == rect_of(
                    config@.sub_textures[i],
                ),
            keys@ == keys_of(config@.sub_textures.take(idx as int)),
            strict ==> forall|j: int|
                0 <= j < idx ==> rect_within(#[trigger] config@.sub_textures[j], image_width, image_height),
        decreases sub_count - idx,
    {
        let sub = &config.sub_textures[idx];
        assert(sub@ == config@.sub_textures[idx as int]);
        assert(sub_in_range(sub@));
        if strict {
            if !rect_within_check(sub, image_width, image_height) {
                proof {
                    lemma_first_oob_here(
                        config@.sub_textures,
                        image_width,
                        image_height,
                        0,
                        idx as int,
                    );
                }
                return Err(
                    BuildError::OutOfBounds { index: idx, name: copy_bytes(sub.name.as_slice()) },
                );
            }
        }
        let rect = sub.rect();
        let slot = atlas.add_texture(rect);
        keys.insert(copy_bytes(sub.name.as_slice()), slot);
        proof {
            let subs = config@.sub_textures;
            assert(subs.take(idx + 1).drop_last() =~= subs.take(idx as int));
            assert(subs.take(idx + 1).last() == subs[idx as int]);
        }
        idx += 1;
    }
    proof {
        let subs = config@.sub_textures;
        assert(subs.take(sub_count as int) =~= subs);
        if strict {
            lemma_no_oob(subs, image_width, image_height, 0);
        }
        assert forall|n: Seq<u8>| keys@.dom().contains(n) implies 0 <= #[trigger] keys@[n]
            < atlas.textures@.len() by {
            lemma_keys_of_range(subs, n);
        }
    }
    Ok(KeyedTextureAtlas { keys, atlas })
}

} // verus!

