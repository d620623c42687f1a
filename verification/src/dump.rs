//! The container reader, and the decoding of a whole container.

use crate::color::{Rgba, PALETTE_SIZE};
use crate::draw::{decoded, draw_sprite, DecodedSprite, DecodedSpriteView};
use crate::error::{DecodeError, Failure};
use crate::le::{b2u32, le_u32_at};
use crate::paint::{draw_failure, drawn};
use crate::sprite::{name_bytes, record, record_fits, shift_jis_text, Sprite, SpriteView};
use crate::store::{nothing_stored, TileKey};
use crate::tilemap::TileMap;
use vstd::prelude::*;
use vstd::slice::slice_subrange;

verus! {

/// Where the global palette starts in a container.
pub const PALETTE_AT: usize = 20;

/// Where the sheet descriptor starts: the number of sheets, a reserved
/// number that is zero, the number of alignment entries and the number of
/// sprites, 32 bits each.
pub const DESCRIPTOR_AT: usize = 8212;

/// Where the offset table starts.
pub const OFFSETS_AT: usize = 8260;

/// Where the offset of the alignment table stands: at place 3000 of the
/// offset table.
pub const ALIGN_POINTER_AT: usize = 20260;

/// The header of a container as it was read.
pub struct Container<'a> {
    /// The global palette: 256 entries of four bytes.
    pub palette: &'a [u8],
    pub num_sheets: u32,
    pub num_aligns: u32,
    /// The number of sprites.
    pub image_count: u32,
    /// The offset of each sprite's record in the container.
    pub offset_table: Vec<u32>,
    /// The offset of the alignment table in the container.
    pub align_base: u32,
}

/// The header of a container as a mathematical value.
pub struct ContainerView {
    pub palette: Seq<u8>,
    pub num_sheets: u32,
    pub num_aligns: u32,
    pub image_count: u32,
    pub offset_table: Seq<u32>,
    pub align_base: u32,
}

impl<'a> View for Container<'a> {
    type V = ContainerView;

    open spec fn view(&self) -> ContainerView {
        ContainerView {
            palette: self.palette@,
            num_sheets: self.num_sheets,
            num_aligns: self.num_aligns,
            image_count: self.image_count,
            offset_table: self.offset_table@,
            align_base: self.align_base,
        }
    }
}

/// The number of sprites that the header of `data` declares.
pub open spec fn declared_sprites(data: Seq<u8>) -> int {
    le_u32_at(data, DESCRIPTOR_AT + 12)
}

/// The offset of sprite `n` in the offset table of `data`.
pub open spec fn declared_offset(data: Seq<u8>, n: int) -> int {
    le_u32_at(data, OFFSETS_AT + 4 * n)
}

/// Whether `data` starts with a sound header: it reaches past the offset of
/// the alignment table, its reserved number is zero, it holds the whole
/// offset table, and the offset of every sprite and of the alignment table
/// lies within it.
pub open spec fn header_ok(data: Seq<u8>) -> bool {
    &&& data.len() >= ALIGN_POINTER_AT + 4
    &&& le_u32_at(data, DESCRIPTOR_AT + 4) == 0
    &&& OFFSETS_AT + 4 * declared_sprites(data) <= data.len()
    &&& forall|n: int|
        0 <= n < declared_sprites(data) ==> #[trigger] declared_offset(data, n) < data.len()
    &&& le_u32_at(data, ALIGN_POINTER_AT as int) <= data.len()
}

/// The header that `data` starts with.
pub open spec fn header(data: Seq<u8>) -> ContainerView
    recommends
        header_ok(data),
{
    ContainerView {
        palette: data.subrange(PALETTE_AT as int, PALETTE_AT + PALETTE_SIZE),
        num_sheets: le_u32_at(data, DESCRIPTOR_AT as int) as u32,
        num_aligns: le_u32_at(data, DESCRIPTOR_AT + 8) as u32,
        image_count: declared_sprites(data) as u32,
        offset_table: Seq::new(
            declared_sprites(data) as nat,
            |n: int| declared_offset(data, n) as u32,
        ),
        align_base: le_u32_at(data, ALIGN_POINTER_AT as int) as u32,
    }
}

/// The content of the palette file of a container: the number 0x40 in four
/// little-endian bytes, then the palette as it stands.
pub open spec fn palette_file(palette: Seq<u8>) -> Seq<u8> {
    seq![0x40u8, 0u8, 0u8, 0u8] + palette
}

/// Reads 32 bits at `at` of `data`.
fn read_u32(data: &[u8], at: usize) -> (r: u32)
    requires
        at + 4 <= data@.len(),
    ensures
        r == le_u32_at(data@, at as int),
{
    let len: usize = data.len();
    b2u32(slice_subrange(data, at, at + 4))
}

impl<'a> Container<'a> {
    /// Reads the header of a container. The result is `Format` exactly
    /// where the header is not sound.
    ///
    /// Of a header that was read, the offset table has one offset for each
    /// sprite, and every offset lies within the container.
    pub fn read(data: &'a [u8]) -> (r: Result<Container<'a>, DecodeError>)
        ensures
            match r {
                Ok(container) => {
                    &&& header_ok(data@)
                    &&& container@ == header(data@)
                    &&& container.offset_table@.len() == container.image_count
                    &&& forall|n: int|
                        0 <= n < container.offset_table@.len()
                            ==> #[trigger] container.offset_table@[n] < data@.len()
                    &&& container.align_base <= data@.len()
                    &&& container.palette@.len() == PALETTE_SIZE
                },
                Err(failure) => failure == DecodeError::Format && !header_ok(data@),
            },
    {
        if data.len() < ALIGN_POINTER_AT + 4 {
            return Err(DecodeError::Format);
        }
        let num_sheets = read_u32(data, DESCRIPTOR_AT);
        if read_u32(data, DESCRIPTOR_AT + 4) != 0 {
            return Err(DecodeError::Format);
        }
        let num_aligns = read_u32(data, DESCRIPTOR_AT + 8);
        let image_count = read_u32(data, DESCRIPTOR_AT + 12);
        let align_base = read_u32(data, ALIGN_POINTER_AT);
        if align_base as u64 > data.len() as u64 {
            return Err(DecodeError::Format);
        }
        if OFFSETS_AT as u64 + 4 * (image_count as u64) > data.len() as u64 {
            return Err(DecodeError::Format);
        }
        let mut offset_table: Vec<u32> = Vec::new();
        let mut n: u32 = 0;
        while n < image_count
            invariant
                n <= image_count,
                image_count == declared_sprites(data@),
                OFFSETS_AT + 4 * image_count <= data@.len() <= usize::MAX,
                offset_table@.len() == n,
                forall|k: int|
                    0 <= k < n ==> #[trigger] offset_table@[k] == declared_offset(data@, k),
                forall|k: int| 0 <= k < n ==> #[trigger] declared_offset(data@, k) < data@.len(),
            decreases image_count - n,
        {
            let offset = read_u32(data, OFFSETS_AT + 4 * (n as usize));
            if offset as u64 >= data.len() as u64 {
                assert(!(declared_offset(data@, n as int) < data@.len()));
                return Err(DecodeError::Format);
            }
            offset_table.push(offset);
            n += 1;
        }
        let container = Container {
            palette: slice_subrange(data, PALETTE_AT, PALETTE_AT + PALETTE_SIZE),
            num_sheets,
            num_aligns,
            image_count,
            offset_table,
            align_base,
        };
        assert(container@.offset_table =~= header(data@).offset_table);
        Ok(container)
    }
}

/// The palette file of a container with the global palette `palette`. It
/// is four bytes longer than the palette and starts with 0x40, 0, 0, 0.
pub fn palette_sidecar(palette: &[u8]) -> (file: Vec<u8>)
    ensures
        file@ == palette_file(palette@),
        file@.len() == 4 + palette@.len(),
        file@[0] == 0x40 && file@[1] == 0 && file@[2] == 0 && file@[3] == 0,
        file@.subrange(4, file@.len() as int) == palette@,
{
    let mut file: Vec<u8> = Vec::new();
    file.push(0x40);
    file.push(0);
    file.push(0);
    file.push(0);
    let mut k: usize = 0;
    while k < palette.len()
        invariant
            k <= palette@.len(),
            file@ == palette_file(palette@.subrange(0, k as int)),
        decreases palette@.len() - k,
    {
        file.push(palette[k]);
        assert(file@ =~= palette_file(palette@.subrange(0, k + 1)));
        k += 1;
    }
    assert(palette@.subrange(0, k as int) =~= palette@);
    assert(file@.subrange(4, file@.len() as int) =~= palette@);
    file
}

/// The sprites of a container that have been decoded so far, the cache as
/// they left it, and the failure that stopped the decoding, if one did.
pub struct Sheet {
    pub sprites: Seq<DecodedSpriteView>,
    pub colors: Map<TileKey, Rgba>,
    pub alphas: Map<TileKey, Rgba>,
    pub failure: Option<Failure>,
}

/// The sprite whose record starts at `offset` of `data`, or `None` where
/// `data` does not hold such a record.
pub open spec fn sprite_at(data: Seq<u8>, offset: u32) -> Option<SpriteView> {
    let rest = data.subrange(offset as int, data.len() as int);
    if offset <= data.len() && record_fits(rest) {
        Some(record(rest, offset as usize, shift_jis_text(name_bytes(rest))))
    } else {
        None
    }
}

/// The alignment table of a container: its bytes from `align_base` on.
pub open spec fn align_table(data: Seq<u8>, h: ContainerView) -> Seq<u8> {
    data.subrange(h.align_base as int, data.len() as int)
}

/// Decodes sprite `n` of a container after those before it: the sprite is
/// read at its offset and painted over the cache as it stands. A failure
/// tells the sprite's number and offset, and the entry where one failed.
pub open spec fn decode_next(sh: Sheet, data: Seq<u8>, h: ContainerView, n: int) -> Sheet {
    if sh.failure is Some {
        sh
    } else {
        match sprite_at(data, h.offset_table[n]) {
            None => Sheet {
                failure: Some(
                    Failure {
                        kind: DecodeError::Format,
                        sprite: Some(n as usize),
                        offset: Some(h.offset_table[n]),
                        entry: None,
                    },
                ),
                ..sh
            },
            Some(s) => {
                let p = drawn(s, align_table(data, h), h.palette, sh.colors, sh.alphas);
                Sheet {
                    sprites: if p.failure is None {
                        sh.sprites.push(decoded(s, p.pixels))
                    } else {
                        sh.sprites
                    },
                    colors: p.colors,
                    alphas: p.alphas,
                    failure: match draw_failure(
                        s,
                        align_table(data, h),
                        h.palette,
                        sh.colors,
                        sh.alphas,
                    ) {
                        Some(failure) => Some(Failure { sprite: Some(n as usize), ..failure }),
                        None => None,
                    },
                }
            },
        }
    }
}

/// Decodes the first `n` sprites of a container in the order of its offset
/// table, starting from an empty cache.
pub open spec fn decode_first(data: Seq<u8>, h: ContainerView, n: nat) -> Sheet
    decreases n,
{
    if n == 0 {
        Sheet {
            sprites: Seq::empty(),
            colors: nothing_stored(),
            alphas: nothing_stored(),
            failure: None,
        }
    } else {
        decode_next(decode_first(data, h, (n - 1) as nat), data, h, n - 1)
    }
}

/// Decodes all the sprites that the offset table of `h` names. An alignment
/// table that starts outside the container is a format error.
pub open spec fn decode_all(data: Seq<u8>, h: ContainerView) -> Sheet {
    if h.align_base > data.len() {
        Sheet {
            failure: Some(
                Failure { kind: DecodeError::Format, sprite: None, offset: None, entry: None },
            ),
            ..decode_first(data, h, 0)
        }
    } else {
        decode_first(data, h, h.offset_table.len())
    }
}

/// A decoding that has failed after `m` sprites is the same after any more.
pub proof fn lemma_sheet_stays_failed(data: Seq<u8>, h: ContainerView, m: nat, n: nat)
    requires
        m <= n,
        decode_first(data, h, m).failure is Some,
    ensures
        decode_first(data, h, n) == decode_first(data, h, m),
    decreases n - m,
{
    if m < n {
        lemma_sheet_stays_failed(data, h, m, (n - 1) as nat);
    }
}

/// What decoding a container gives: its palette file and its sprites.
pub struct Dump {
    /// The content of the palette file.
    pub palette_file: Vec<u8>,
    /// The painted sprites, in the order of the offset table.
    pub sprites: Vec<DecodedSprite>,
}

/// A decoded container as a mathematical value.
pub struct DumpView {
    pub palette_file: Seq<u8>,
    pub sprites: Seq<DecodedSpriteView>,
}

/// The painted sprites of a list as mathematical values.
pub open spec fn sprite_views(sprites: Seq<DecodedSprite>) -> Seq<DecodedSpriteView> {
    Seq::new(sprites.len(), |i: int| sprites[i]@)
}

impl View for Dump {
    type V = DumpView;

    open spec fn view(&self) -> DumpView {
        DumpView { palette_file: self.palette_file@, sprites: sprite_views(self.sprites@) }
    }
}

/// What decoding the container `data` gives: the failure of the header or
/// of the first sprite that fails, else the palette file and all sprites.
pub open spec fn dumped(data: Seq<u8>) -> Result<DumpView, Failure> {
    if !header_ok(data) {
        Err(Failure { kind: DecodeError::Format, sprite: None, offset: None, entry: None })
    } else {
        let h = header(data);
        let sh = decode_all(data, h);
        match sh.failure {
            Some(failure) => Err(failure),
            None => Ok(DumpView { palette_file: palette_file(h.palette), sprites: sh.sprites }),
        }
    }
}

/// The result of a decoding as a mathematical value.
pub open spec fn dump_view(r: Result<Dump, Failure>) -> Result<DumpView, Failure> {
    match r {
        Ok(dump) => Ok(dump@),
        Err(failure) => Err(failure),
    }
}

/// The width of the first sprite of a container, which its cache takes for
/// the width of a tile, or zero where the container has no first sprite.
pub open spec fn first_width(data: Seq<u8>, h: ContainerView) -> u32 {
    if h.offset_table.len() == 0 {
        0
    } else {
        match sprite_at(data, h.offset_table[0]) {
            Some(s) => s.width,
            None => 0,
        }
    }
}

fn first_sprite_width(data: &[u8], container: &Container) -> (width: u32)
    ensures
        width == first_width(data@, container@),
{
    if container.offset_table.len() == 0 {
        return 0;
    }
    let first: u32 = container.offset_table[0];
    if first as u64 > data.len() as u64 {
        return 0;
    }
    match Sprite::new(slice_subrange(data, first as usize, data.len()), first as usize) {
        Ok(sprite) => sprite.width,
        Err(_) => 0,
    }
}

/// Decodes the sprites that the offset table of `container` names from
/// `data`, in the order of the table and over one cache for all of them.
/// The first failure is the result.
pub fn decode_sprites(data: &[u8], container: &Container) -> (r: Result<
    Vec<DecodedSprite>,
    Failure,
>)
    ensures
        match r {
            Ok(sprites) => {
                &&& decode_all(data@, container@).failure is None
                &&& sprite_views(sprites@) == decode_all(data@, container@).sprites
                &&& forall|i: int| 0 <= i < sprites@.len() ==> (#[trigger] sprites@[i]).canvas.wf()
            },
            Err(failure) => decode_all(data@, container@).failure == Some(failure),
        },
{
    if container.align_base as u64 > data.len() as u64 {
        return Err(Failure::bare(DecodeError::Format));
    }
    let m_align = slice_subrange(data, container.align_base as usize, data.len());
    let count: usize = container.offset_table.len();
    let mut tm = TileMap::new(
        container.num_sheets,
        container.num_aligns,
        first_sprite_width(data, container),
    );
    let mut sprites: Vec<DecodedSprite> = Vec::new();
    let mut n: usize = 0;
    assert(sprite_views(sprites@) =~= Seq::empty());
    while n < count
        invariant
            n <= count,
            container.align_base <= data@.len(),
            count == container.offset_table@.len(),
            m_align@ == align_table(data@, container@),
            decode_first(data@, container@, n as nat) == (Sheet {
                sprites: sprite_views(sprites@),
                colors: tm.colors(),
                alphas: tm.alphas(),
                failure: None,
            }),
            forall|i: int| 0 <= i < sprites@.len() ==> (#[trigger] sprites@[i]).canvas.wf(),
        decreases count - n,
    {
        let ghost before = decode_first(data@, container@, n as nat);
        let ghost next = decode_first(data@, container@, (n + 1) as nat);
        assert(next == decode_next(before, data@, container@, n as int));
        let offset: u32 = container.offset_table[n];
        if offset as u64 > data.len() as u64 {
            proof {
                lemma_sheet_stays_failed(data@, container@, (n + 1) as nat, count as nat);
            }
            return Err(
                Failure {
                    kind: DecodeError::Format,
                    sprite: Some(n),
                    offset: Some(offset),
                    entry: None,
                },
            );
        }
        let sprite = match Sprite::new(
            slice_subrange(data, offset as usize, data.len()),
            offset as usize,
        ) {
            Ok(sprite) => sprite,
            Err(kind) => {
                proof {
                    lemma_sheet_stays_failed(data@, container@, (n + 1) as nat, count as nat);
                }
                return Err(Failure { kind, sprite: Some(n), offset: Some(offset), entry: None });
            },
        };
        assert(sprite_at(data@, offset) == Some(sprite@));
        match draw_sprite(&sprite, m_align, container.palette, &mut tm) {
            Ok(out) => {
                let ghost held = sprites@;
                sprites.push(out);
                assert(sprite_views(sprites@) =~= sprite_views(held).push(out@));
            },
            Err(failure) => {
                proof {
                    lemma_sheet_stays_failed(data@, container@, (n + 1) as nat, count as nat);
                }
                return Err(
                    Failure {
                        kind: failure.kind,
                        sprite: Some(n),
                        offset: failure.offset,
                        entry: failure.entry,
                    },
                );
            },
        }
        n += 1;
    }
    Ok(sprites)
}

/// Decodes a container: reads its header, makes its palette file and
/// paints its sprites one after the other. Whatever fails first is the
/// result, and then nothing of the container is handed out.
pub fn dump_cg(data: &[u8]) -> (r: Result<Dump, Failure>)
    ensures
        dump_view(r) == dumped(data@),
        r matches Ok(dump) ==> forall|i: int|
            0 <= i < dump.sprites@.len() ==> (#[trigger] dump.sprites@[i]).canvas.wf(),
{
    let container = match Container::read(data) {
        Ok(container) => container,
        Err(kind) => {
            return Err(Failure::bare(kind));
        },
    };
    let palette_file = palette_sidecar(container.palette);
    match decode_sprites(data, &container) {
        Ok(sprites) => Ok(Dump { palette_file, sprites }),
        Err(failure) => Err(failure),
    }
}

/// Decoding is a function of the container alone: two results that both
/// meet the contract of `dump_cg` for the same bytes are the same failure,
/// or hold the same palette file and, sprite by sprite, the same names,
/// sizes, pixels and sidecars.
pub proof fn lemma_decoding_is_deterministic(
    data: Seq<u8>,
    first: Result<Dump, Failure>,
    second: Result<Dump, Failure>,
)
    requires
        dump_view(first) == dumped(data),
        dump_view(second) == dumped(data),
    ensures
        dump_view(first) == dump_view(second),
        first is Err ==> first == second,
        first matches Ok(a) ==> second matches Ok(b) && a.palette_file@ == b.palette_file@
            && a.sprites@.len() == b.sprites@.len() && forall|i: int|
            0 <= i < a.sprites@.len() ==> (#[trigger] a.sprites@[i])@ == b.sprites@[i]@,
{
    match first {
        Ok(a) => {
            let b = second->Ok_0;
            assert(sprite_views(a.sprites@) == sprite_views(b.sprites@));
            assert(sprite_views(a.sprites@).len() == a.sprites@.len());
            assert(sprite_views(b.sprites@).len() == b.sprites@.len());
            assert forall|i: int| 0 <= i < a.sprites@.len() implies (#[trigger] a.sprites@[i])@
                == b.sprites@[i]@ by {
                assert(sprite_views(a.sprites@)[i] == a.sprites@[i]@);
                assert(sprite_views(b.sprites@)[i] == b.sprites@[i]@);
            }
        },
        Err(_) => {},
    }
}

} // verus!
