use vstd::prelude::*;

verus! {

// An 11-bit little-endian field that starts at bit offset `s` of a window of
// consecutive payload bytes is reassembled by shifting the bytes into place
// and masking to 11 bits.  One helper per possible offset (the offsets cycle
// through 0,3,6,1,4,7,2,5 as the field index advances by 11 bits each step);
// each returns the shift-and-mask word and states that it equals the weighted
// sum of the individual bits of the field, as a bit-vector fact.

proof fn lemma_field_at_0(a: u8, b: u8)
    by (bit_vector)
    ensures
        ((a as u16) | ((b as u16) << 8)) & 0x7FF == ((a >> 0u8) & 1) + 2 * ((a >> 1u8) & 1) + 4
            * ((a >> 2u8) & 1) + 8 * ((a >> 3u8) & 1) + 16 * ((a >> 4u8) & 1) + 32 * ((a >> 5u8)
            & 1) + 64 * ((a >> 6u8) & 1) + 128 * ((a >> 7u8) & 1) + 256 * ((b >> 0u8) & 1) + 512
            * ((b >> 1u8) & 1) + 1024 * ((b >> 2u8) & 1),
{
}

pub(crate) fn field_at_0(a: u8, b: u8) -> (r: u16)
    ensures
        r == ((a >> 0u8) & 1) + 2 * ((a >> 1u8) & 1) + 4
            * ((a >> 2u8) & 1) + 8 * ((a >> 3u8) & 1) + 16 * ((a >> 4u8) & 1) + 32 * ((a >> 5u8)
            & 1) + 64 * ((a >> 6u8) & 1) + 128 * ((a >> 7u8) & 1) + 256 * ((b >> 0u8) & 1) + 512
            * ((b >> 1u8) & 1) + 1024 * ((b >> 2u8) & 1),
{
    proof {
        lemma_field_at_0(a, b);
    }
    ((a as u16) | ((b as u16) << 8)) & 0x7FF
}

proof fn lemma_field_at_3(a: u8, b: u8)
    by (bit_vector)
    ensures
        (((a as u16) >> 3) | ((b as u16) << 5)) & 0x7FF == ((a >> 3u8) & 1) + 2 * ((a >> 4u8) & 1)
            + 4 * ((a >> 5u8) & 1) + 8 * ((a >> 6u8) & 1) + 16 * ((a >> 7u8) & 1) + 32 * ((b
            >> 0u8) & 1) + 64 * ((b >> 1u8) & 1) + 128 * ((b >> 2u8) & 1) + 256 * ((b >> 3u8) & 1)
            + 512 * ((b >> 4u8) & 1) + 1024 * ((b >> 5u8) & 1),
{
}

pub(crate) fn field_at_3(a: u8, b: u8) -> (r: u16)
    ensures
        r == ((a >> 3u8) & 1) + 2 * ((a >> 4u8) & 1)
            + 4 * ((a >> 5u8) & 1) + 8 * ((a >> 6u8) & 1) + 16 * ((a >> 7u8) & 1) + 32 * ((b
            >> 0u8) & 1) + 64 * ((b >> 1u8) & 1) + 128 * ((b >> 2u8) & 1) + 256 * ((b >> 3u8) & 1)
            + 512 * ((b >> 4u8) & 1) + 1024 * ((b >> 5u8) & 1),
{
    proof {
        lemma_field_at_3(a, b);
    }
    (((a as u16) >> 3) | ((b as u16) << 5)) & 0x7FF
}

proof fn lemma_field_at_6(a: u8, b: u8, c: u8)
    by (bit_vector)
    ensures
        (((a as u16) >> 6) | ((b as u16) << 2) | ((c as u16) << 10)) & 0x7FF == ((a >> 6u8) & 1)
            + 2 * ((a >> 7u8) & 1) + 4 * ((b >> 0u8) & 1) + 8 * ((b >> 1u8) & 1) + 16 * ((b
            >> 2u8) & 1) + 32 * ((b >> 3u8) & 1) + 64 * ((b >> 4u8) & 1) + 128 * ((b >> 5u8) & 1)
            + 256 * ((b >> 6u8) & 1) + 512 * ((b >> 7u8) & 1) + 1024 * ((c >> 0u8) & 1),
{
}

pub(crate) fn field_at_6(a: u8, b: u8, c: u8) -> (r: u16)
    ensures
        r == ((a >> 6u8) & 1)
            + 2 * ((a >> 7u8) & 1) + 4 * ((b >> 0u8) & 1) + 8 * ((b >> 1u8) & 1) + 16 * ((b
            >> 2u8) & 1) + 32 * ((b >> 3u8) & 1) + 64 * ((b >> 4u8) & 1) + 128 * ((b >> 5u8) & 1)
            + 256 * ((b >> 6u8) & 1) + 512 * ((b >> 7u8) & 1) + 1024 * ((c >> 0u8) & 1),
{
    proof {
        lemma_field_at_6(a, b, c);
    }
    (((a as u16) >> 6) | ((b as u16) << 2) | ((c as u16) << 10)) & 0x7FF
}

proof fn lemma_field_at_1(a: u8, b: u8)
    by (bit_vector)
    ensures
        (((a as u16) >> 1) | ((b as u16) << 7)) & 0x7FF == ((a >> 1u8) & 1) + 2 * ((a >> 2u8) & 1)
            + 4 * ((a >> 3u8) & 1) + 8 * ((a >> 4u8) & 1) + 16 * ((a >> 5u8) & 1) + 32 * ((a
            >> 6u8) & 1) + 64 * ((a >> 7u8) & 1) + 128 * ((b >> 0u8) & 1) + 256 * ((b >> 1u8) & 1)
            + 512 * ((b >> 2u8) & 1) + 1024 * ((b >> 3u8) & 1),
{
}

pub(crate) fn field_at_1(a: u8, b: u8) -> (r: u16)
    ensures
        r == ((a >> 1u8) & 1) + 2 * ((a >> 2u8) & 1)
            + 4 * ((a >> 3u8) & 1) + 8 * ((a >> 4u8) & 1) + 16 * ((a >> 5u8) & 1) + 32 * ((a
            >> 6u8) & 1) + 64 * ((a >> 7u8) & 1) + 128 * ((b >> 0u8) & 1) + 256 * ((b >> 1u8) & 1)
            + 512 * ((b >> 2u8) & 1) + 1024 * ((b >> 3u8) & 1),
{
    proof {
        lemma_field_at_1(a, b);
    }
    (((a as u16) >> 1) | ((b as u16) << 7)) & 0x7FF
}

proof fn lemma_field_at_4(a: u8, b: u8)
    by (bit_vector)
    ensures
        (((a as u16) >> 4) | ((b as u16) << 4)) & 0x7FF == ((a >> 4u8) & 1) + 2 * ((a >> 5u8) & 1)
            + 4 * ((a >> 6u8) & 1) + 8 * ((a >> 7u8) & 1) + 16 * ((b >> 0u8) & 1) + 32 * ((b
            >> 1u8) & 1) + 64 * ((b >> 2u8) & 1) + 128 * ((b >> 3u8) & 1) + 256 * ((b >> 4u8) & 1)
            + 512 * ((b >> 5u8) & 1) + 1024 * ((b >> 6u8) & 1),
{
}

pub(crate) fn field_at_4(a: u8, b: u8) -> (r: u16)
    ensures
        r == ((a >> 4u8) & 1) + 2 * ((a >> 5u8) & 1)
            + 4 * ((a >> 6u8) & 1) + 8 * ((a >> 7u8) & 1) + 16 * ((b >> 0u8) & 1) + 32 * ((b
            >> 1u8) & 1) + 64 * ((b >> 2u8) & 1) + 128 * ((b >> 3u8) & 1) + 256 * ((b >> 4u8) & 1)
            + 512 * ((b >> 5u8) & 1) + 1024 * ((b >> 6u8) & 1),
{
    proof {
        lemma_field_at_4(a, b);
    }
    (((a as u16) >> 4) | ((b as u16) << 4)) & 0x7FF
}

proof fn lemma_field_at_7(a: u8, b: u8, c: u8)
    by (bit_vector)
    ensures
        (((a as u16) >> 7) | ((b as u16) << 1) | ((c as u16) << 9)) & 0x7FF == ((a >> 7u8) & 1) + 2
            * ((b >> 0u8) & 1) + 4 * ((b >> 1u8) & 1) + 8 * ((b >> 2u8) & 1) + 16 * ((b >> 3u8)
            & 1) + 32 * ((b >> 4u8) & 1) + 64 * ((b >> 5u8) & 1) + 128 * ((b >> 6u8) & 1) + 256
            * ((b >> 7u8) & 1) + 512 * ((c >> 0u8) & 1) + 1024 * ((c >> 1u8) & 1),
{
}

pub(crate) fn field_at_7(a: u8, b: u8, c: u8) -> (r: u16)
    ensures
        r == ((a >> 7u8) & 1) + 2
            * ((b >> 0u8) & 1) + 4 * ((b >> 1u8) & 1) + 8 * ((b >> 2u8) & 1) + 16 * ((b >> 3u8)
            & 1) + 32 * ((b >> 4u8) & 1) + 64 * ((b >> 5u8) & 1) + 128 * ((b >> 6u8) & 1) + 256
            * ((b >> 7u8) & 1) + 512 * ((c >> 0u8) & 1) + 1024 * ((c >> 1u8) & 1),
{
    proof {
        lemma_field_at_7(a, b, c);
    }
    (((a as u16) >> 7) | ((b as u16) << 1) | ((c as u16) << 9)) & 0x7FF
}

proof fn lemma_field_at_2(a: u8, b: u8)
    by (bit_vector)
    ensures
        (((a as u16) >> 2) | ((b as u16) << 6)) & 0x7FF == ((a >> 2u8) & 1) + 2 * ((a >> 3u8) & 1)
            + 4 * ((a >> 4u8) & 1) + 8 * ((a >> 5u8) & 1) + 16 * ((a >> 6u8) & 1) + 32 * ((a
            >> 7u8) & 1) + 64 * ((b >> 0u8) & 1) + 128 * ((b >> 1u8) & 1) + 256 * ((b >> 2u8) & 1)
            + 512 * ((b >> 3u8) & 1) + 1024 * ((b >> 4u8) & 1),
{
}

pub(crate) fn field_at_2(a: u8, b: u8) -> (r: u16)
    ensures
        r == ((a >> 2u8) & 1) + 2 * ((a >> 3u8) & 1)
            + 4 * ((a >> 4u8) & 1) + 8 * ((a >> 5u8) & 1) + 16 * ((a >> 6u8) & 1) + 32 * ((a
            >> 7u8) & 1) + 64 * ((b >> 0u8) & 1) + 128 * ((b >> 1u8) & 1) + 256 * ((b >> 2u8) & 1)
            + 512 * ((b >> 3u8) & 1) + 1024 * ((b >> 4u8) & 1),
{
    proof {
        lemma_field_at_2(a, b);
    }
    (((a as u16) >> 2) | ((b as u16) << 6)) & 0x7FF
}

proof fn lemma_field_at_5(a: u8, b: u8)
    by (bit_vector)
    ensures
        (((a as u16) >> 5) | ((b as u16) << 3)) & 0x7FF == ((a >> 5u8) & 1) + 2 * ((a >> 6u8) & 1)
            + 4 * ((a >> 7u8) & 1) + 8 * ((b >> 0u8) & 1) + 16 * ((b >> 1u8) & 1) + 32 * ((b
            >> 2u8) & 1) + 64 * ((b >> 3u8) & 1) + 128 * ((b >> 4u8) & 1) + 256 * ((b >> 5u8) & 1)
            + 512 * ((b >> 6u8) & 1) + 1024 * ((b >> 7u8) & 1),
{
}

pub(crate) fn field_at_5(a: u8, b: u8) -> (r: u16)
    ensures
        r == ((a >> 5u8) & 1) + 2 * ((a >> 6u8) & 1)
            + 4 * ((a >> 7u8) & 1) + 8 * ((b >> 0u8) & 1) + 16 * ((b >> 1u8) & 1) + 32 * ((b
            >> 2u8) & 1) + 64 * ((b >> 3u8) & 1) + 128 * ((b >> 4u8) & 1) + 256 * ((b >> 5u8) & 1)
            + 512 * ((b >> 6u8) & 1) + 1024 * ((b >> 7u8) & 1),
{
    proof {
        lemma_field_at_5(a, b);
    }
    (((a as u16) >> 5) | ((b as u16) << 3)) & 0x7FF
}

// One lemma per channel index: unfolding the channel specification at a
// concrete index reduces it to the weighted sum of bits of the two or three
// payload bytes that the 11-bit field spans.

pub(crate) proof fn lemma_chan0(p: Seq<u8>, a: u8, b: u8)
    requires
        p[0] == a,
        p[1] == b,
    ensures
        crate::channel_spec(p, 0) == ((a >> 0u8) & 1) + 2 * ((a >> 1u8) & 1)
            + 4 * ((a >> 2u8) & 1) + 8 * ((a >> 3u8) & 1) + 16 * ((a >> 4u8) & 1)
            + 32 * ((a >> 5u8) & 1) + 64 * ((a >> 6u8) & 1) + 128 * ((a >> 7u8) & 1)
            + 256 * ((b >> 0u8) & 1) + 512 * ((b >> 1u8) & 1) + 1024 * ((b >> 2u8) & 1),
{
    reveal(crate::channel_spec);
}

pub(crate) proof fn lemma_chan1(p: Seq<u8>, a: u8, b: u8)
    requires
        p[1] == a,
        p[2] == b,
    ensures
        crate::channel_spec(p, 1) == ((a >> 3u8) & 1) + 2 * ((a >> 4u8) & 1)
            + 4 * ((a >> 5u8) & 1) + 8 * ((a >> 6u8) & 1) + 16 * ((a >> 7u8) & 1)
            + 32 * ((b >> 0u8) & 1) + 64 * ((b >> 1u8) & 1) + 128 * ((b >> 2u8) & 1)
            + 256 * ((b >> 3u8) & 1) + 512 * ((b >> 4u8) & 1) + 1024 * ((b >> 5u8) & 1),
{
    reveal(crate::channel_spec);
}

pub(crate) proof fn lemma_chan2(p: Seq<u8>, a: u8, b: u8, c: u8)
    requires
        p[2] == a,
        p[3] == b,
        p[4] == c,
    ensures
        crate::channel_spec(p, 2) == ((a >> 6u8) & 1) + 2 * ((a >> 7u8) & 1)
            + 4 * ((b >> 0u8) & 1) + 8 * ((b >> 1u8) & 1) + 16 * ((b >> 2u8) & 1)
            + 32 * ((b >> 3u8) & 1) + 64 * ((b >> 4u8) & 1) + 128 * ((b >> 5u8) & 1)
            + 256 * ((b >> 6u8) & 1) + 512 * ((b >> 7u8) & 1) + 1024 * ((c >> 0u8) & 1),
{
    reveal(crate::channel_spec);
}

pub(crate) proof fn lemma_chan3(p: Seq<u8>, a: u8, b: u8)
    requires
        p[4] == a,
        p[5] == b,
    ensures
        crate::channel_spec(p, 3) == ((a >> 1u8) & 1) + 2 * ((a >> 2u8) & 1)
            + 4 * ((a >> 3u8) & 1) + 8 * ((a >> 4u8) & 1) + 16 * ((a >> 5u8) & 1)
            + 32 * ((a >> 6u8) & 1) + 64 * ((a >> 7u8) & 1) + 128 * ((b >> 0u8) & 1)
            + 256 * ((b >> 1u8) & 1) + 512 * ((b >> 2u8) & 1) + 1024 * ((b >> 3u8) & 1),
{
    reveal(crate::channel_spec);
}

pub(crate) proof fn lemma_chan4(p: Seq<u8>, a: u8, b: u8)
    requires
        p[5] == a,
        p[6] == b,
    ensures
        crate::channel_spec(p, 4) == ((a >> 4u8) & 1) + 2 * ((a >> 5u8) & 1)
            + 4 * ((a >> 6u8) & 1) + 8 * ((a >> 7u8) & 1) + 16 * ((b >> 0u8) & 1)
            + 32 * ((b >> 1u8) & 1) + 64 * ((b >> 2u8) & 1) + 128 * ((b >> 3u8) & 1)
            + 256 * ((b >> 4u8) & 1) + 512 * ((b >> 5u8) & 1) + 1024 * ((b >> 6u8) & 1),
{
    reveal(crate::channel_spec);
}

pub(crate) proof fn lemma_chan5(p: Seq<u8>, a: u8, b: u8, c: u8)
    requires
        p[6] == a,
        p[7] == b,
        p[8] == c,
    ensures
        crate::channel_spec(p, 5) == ((a >> 7u8) & 1) + 2 * ((b >> 0u8) & 1)
            + 4 * ((b >> 1u8) & 1) + 8 * ((b >> 2u8) & 1) + 16 * ((b >> 3u8) & 1)
            + 32 * ((b >> 4u8) & 1) + 64 * ((b >> 5u8) & 1) + 128 * ((b >> 6u8) & 1)
            + 256 * ((b >> 7u8) & 1) + 512 * ((c >> 0u8) & 1) + 1024 * ((c >> 1u8) & 1),
{
    reveal(crate::channel_spec);
}

pub(crate) proof fn lemma_chan6(p: Seq<u8>, a: u8, b: u8)
    requires
        p[8] == a,
        p[9] == b,
    ensures
        crate::channel_spec(p, 6) == ((a >> 2u8) & 1) + 2 * ((a >> 3u8) & 1)
            + 4 * ((a >> 4u8) & 1) + 8 * ((a >> 5u8) & 1) + 16 * ((a >> 6u8) & 1)
            + 32 * ((a >> 7u8) & 1) + 64 * ((b >> 0u8) & 1) + 128 * ((b >> 1u8) & 1)
            + 256 * ((b >> 2u8) & 1) + 512 * ((b >> 3u8) & 1) + 1024 * ((b >> 4u8) & 1),
{
    reveal(crate::channel_spec);
}

pub(crate) proof fn lemma_chan7(p: Seq<u8>, a: u8, b: u8)
    requires
        p[9] == a,
        p[10] == b,
    ensures
        crate::channel_spec(p, 7) == ((a >> 5u8) & 1) + 2 * ((a >> 6u8) & 1)
            + 4 * ((a >> 7u8) & 1) + 8 * ((b >> 0u8) & 1) + 16 * ((b >> 1u8) & 1)
            + 32 * ((b >> 2u8) & 1) + 64 * ((b >> 3u8) & 1) + 128 * ((b >> 4u8) & 1)
            + 256 * ((b >> 5u8) & 1) + 512 * ((b >> 6u8) & 1) + 1024 * ((b >> 7u8) & 1),
{
    reveal(crate::channel_spec);
}

pub(crate) proof fn lemma_chan8(p: Seq<u8>, a: u8, b: u8)
    requires
        p[11] == a,
        p[12] == b,
    ensures
        crate::channel_spec(p, 8) == ((a >> 0u8) & 1) + 2 * ((a >> 1u8) & 1)
            + 4 * ((a >> 2u8) & 1) + 8 * ((a >> 3u8) & 1) + 16 * ((a >> 4u8) & 1)
            + 32 * ((a >> 5u8) & 1) + 64 * ((a >> 6u8) & 1) + 128 * ((a >> 7u8) & 1)
            + 256 * ((b >> 0u8) & 1) + 512 * ((b >> 1u8) & 1) + 1024 * ((b >> 2u8) & 1),
{
    reveal(crate::channel_spec);
}

pub(crate) proof fn lemma_chan9(p: Seq<u8>, a: u8, b: u8)
    requires
        p[12] == a,
        p[13] == b,
    ensures
        crate::channel_spec(p, 9) == ((a >> 3u8) & 1) + 2 * ((a >> 4u8) & 1)
            + 4 * ((a >> 5u8) & 1) + 8 * ((a >> 6u8) & 1) + 16 * ((a >> 7u8) & 1)
            + 32 * ((b >> 0u8) & 1) + 64 * ((b >> 1u8) & 1) + 128 * ((b >> 2u8) & 1)
            + 256 * ((b >> 3u8) & 1) + 512 * ((b >> 4u8) & 1) + 1024 * ((b >> 5u8) & 1),
{
    reveal(crate::channel_spec);
}

pub(crate) proof fn lemma_chan10(p: Seq<u8>, a: u8, b: u8, c: u8)
    requires
        p[13] == a,
        p[14] == b,
        p[15] == c,
    ensures
        crate::channel_spec(p, 10) == ((a >> 6u8) & 1) + 2 * ((a >> 7u8) & 1)
            + 4 * ((b >> 0u8) & 1) + 8 * ((b >> 1u8) & 1) + 16 * ((b >> 2u8) & 1)
            + 32 * ((b >> 3u8) & 1) + 64 * ((b >> 4u8) & 1) + 128 * ((b >> 5u8) & 1)
            + 256 * ((b >> 6u8) & 1) + 512 * ((b >> 7u8) & 1) + 1024 * ((c >> 0u8) & 1),
{
    reveal(crate::channel_spec);
}

pub(crate) proof fn lemma_chan11(p: Seq<u8>, a: u8, b: u8)
    requires
        p[15] == a,
        p[16] == b,
    ensures
        crate::channel_spec(p, 11) == ((a >> 1u8) & 1) + 2 * ((a >> 2u8) & 1)
            + 4 * ((a >> 3u8) & 1) + 8 * ((a >> 4u8) & 1) + 16 * ((a >> 5u8) & 1)
            + 32 * ((a >> 6u8) & 1) + 64 * ((a >> 7u8) & 1) + 128 * ((b >> 0u8) & 1)
            + 256 * ((b >> 1u8) & 1) + 512 * ((b >> 2u8) & 1) + 1024 * ((b >> 3u8) & 1),
{
    reveal(crate::channel_spec);
}

pub(crate) proof fn lemma_chan12(p: Seq<u8>, a: u8, b: u8)
    requires
        p[16] == a,
        p[17] == b,
    ensures
        crate::channel_spec(p, 12) == ((a >> 4u8) & 1) + 2 * ((a >> 5u8) & 1)
            + 4 * ((a >> 6u8) & 1) + 8 * ((a >> 7u8) & 1) + 16 * ((b >> 0u8) & 1)
            + 32 * ((b >> 1u8) & 1) + 64 * ((b >> 2u8) & 1) + 128 * ((b >> 3u8) & 1)
            + 256 * ((b >> 4u8) & 1) + 512 * ((b >> 5u8) & 1) + 1024 * ((b >> 6u8) & 1),
{
    reveal(crate::channel_spec);
}

pub(crate) proof fn lemma_chan13(p: Seq<u8>, a: u8, b: u8, c: u8)
    requires
        p[17] == a,
        p[18] == b,
        p[19] == c,
    ensures
        crate::channel_spec(p, 13) == ((a >> 7u8) & 1) + 2 * ((b >> 0u8) & 1)
            + 4 * ((b >> 1u8) & 1) + 8 * ((b >> 2u8) & 1) + 16 * ((b >> 3u8) & 1)
            + 32 * ((b >> 4u8) & 1) + 64 * ((b >> 5u8) & 1) + 128 * ((b >> 6u8) & 1)
            + 256 * ((b >> 7u8) & 1) + 512 * ((c >> 0u8) & 1) + 1024 * ((c >> 1u8) & 1),
{
    reveal(crate::channel_spec);
}

pub(crate) proof fn lemma_chan14(p: Seq<u8>, a: u8, b: u8)
    requires
        p[19] == a,
        p[20] == b,
    ensures
        crate::channel_spec(p, 14) == ((a >> 2u8) & 1) + 2 * ((a >> 3u8) & 1)
            + 4 * ((a >> 4u8) & 1) + 8 * ((a >> 5u8) & 1) + 16 * ((a >> 6u8) & 1)
            + 32 * ((a >> 7u8) & 1) + 64 * ((b >> 0u8) & 1) + 128 * ((b >> 1u8) & 1)
            + 256 * ((b >> 2u8) & 1) + 512 * ((b >> 3u8) & 1) + 1024 * ((b >> 4u8) & 1),
{
    reveal(crate::channel_spec);
}

pub(crate) proof fn lemma_chan15(p: Seq<u8>, a: u8, b: u8)
    requires
        p[20] == a,
        p[21] == b,
    ensures
        crate::channel_spec(p, 15) == ((a >> 5u8) & 1) + 2 * ((a >> 6u8) & 1)
            + 4 * ((a >> 7u8) & 1) + 8 * ((b >> 0u8) & 1) + 16 * ((b >> 1u8) & 1)
            + 32 * ((b >> 2u8) & 1) + 64 * ((b >> 3u8) & 1) + 128 * ((b >> 4u8) & 1)
            + 256 * ((b >> 5u8) & 1) + 512 * ((b >> 6u8) & 1) + 1024 * ((b >> 7u8) & 1),
{
    reveal(crate::channel_spec);
}

} // verus!
