//! CRC-8 checksum used by the LD06/LD19 LiDAR packet protocol.

use vstd::prelude::*;

verus! {

/// Lookup table of the CRC-8 used by LD06/LD19 packets (one entry per byte value).
pub const CRC_TABLE: [u8; 256] = [
    0x00, 0x4d, 0x9a, 0xd7, 0x79, 0x34, 0xe3, 0xae, 0xf2, 0xbf, 0x68, 0x25,
    0x8b, 0xc6, 0x11, 0x5c, 0xa9, 0xe4, 0x33, 0x7e, 0xd0, 0x9d, 0x4a, 0x07,
    0x5b, 0x16, 0xc1, 0x8c, 0x22, 0x6f, 0xb8, 0xf5, 0x1f, 0x52, 0x85, 0xc8,
    0x66, 0x2b, 0xfc, 0xb1, 0xed, 0xa0, 0x77, 0x3a, 0x94, 0xd9, 0x0e, 0x43,
    0xb6, 0xfb, 0x2c, 0x61, 0xcf, 0x82, 0x55, 0x18, 0x44, 0x09, 0xde, 0x93,
    0x3d, 0x70, 0xa7, 0xea, 0x3e, 0x73, 0xa4, 0xe9, 0x47, 0x0a, 0xdd, 0x90,
    0xcc, 0x81, 0x56, 0x1b, 0xb5, 0xf8, 0x2f, 0x62, 0x97, 0xda, 0x0d, 0x40,
    0xee, 0xa3, 0x74, 0x39, 0x65, 0x28, 0xff, 0xb2, 0x1c, 0x51, 0x86, 0xcb,
    0x21, 0x6c, 0xbb, 0xf6, 0x58, 0x15, 0xc2, 0x8f, 0xd3, 0x9e, 0x49, 0x04,
    0xaa, 0xe7, 0x30, 0x7d, 0x88, 0xc5, 0x12, 0x5f, 0xf1, 0xbc, 0x6b, 0x26,
    0x7a, 0x37, 0xe0, 0xad, 0x03, 0x4e, 0x99, 0xd4, 0x7c, 0x31, 0xe6, 0xab,
    0x05, 0x48, 0x9f, 0xd2, 0x8e, 0xc3, 0x14, 0x59, 0xf7, 0xba, 0x6d, 0x20,
    0xd5, 0x98, 0x4f, 0x02, 0xac, 0xe1, 0x36, 0x7b, 0x27, 0x6a, 0xbd, 0xf0,
    0x5e, 0x13, 0xc4, 0x89, 0x63, 0x2e, 0xf9, 0xb4, 0x1a, 0x57, 0x80, 0xcd,
    0x91, 0xdc, 0x0b, 0x46, 0xe8, 0xa5, 0x72, 0x3f, 0xca, 0x87, 0x50, 0x1d,
    0xb3, 0xfe, 0x29, 0x64, 0x38, 0x75, 0xa2, 0xef, 0x41, 0x0c, 0xdb, 0x96,
    0x42, 0x0f, 0xd8, 0x95, 0x3b, 0x76, 0xa1, 0xec, 0xb0, 0xfd, 0x2a, 0x67,
    0xc9, 0x84, 0x53, 0x1e, 0xeb, 0xa6, 0x71, 0x3c, 0x92, 0xdf, 0x08, 0x45,
    0x19, 0x54, 0x83, 0xce, 0x60, 0x2d, 0xfa, 0xb7, 0x5d, 0x10, 0xc7, 0x8a,
    0x24, 0x69, 0xbe, 0xf3, 0xaf, 0xe2, 0x35, 0x78, 0xd6, 0x9b, 0x4c, 0x01,
    0xf4, 0xb9, 0x6e, 0x23, 0x8d, 0xc0, 0x17, 0x5a, 0x06, 0x4b, 0x9c, 0xd1,
    0x7f, 0x32, 0xe5, 0xa8,
];

/// One table step of the checksum: combine the running value with the next byte.
pub open spec fn crc8_step(crc: u8, byte: u8) -> u8 {
    CRC_TABLE@[(crc ^ byte) as int]
}

/// The checksum of a byte sequence: a left fold of `crc8_step` starting from zero.
pub open spec fn crc8_spec(data: Seq<u8>) -> u8
    decreases data.len(),
{
    if data.len() == 0 {
        0
    } else {
        crc8_step(crc8_spec(data.drop_last()), data.last())
    }
}

/// Calculate the CRC-8 checksum of `data`.
pub fn calculate_crc8(data: &[u8]) -> (crc: u8)
    ensures
        crc == crc8_spec(data@),
{
    let mut crc: u8 = 0;
    let mut i: usize = 0;
    while i < data.len()
        invariant
            i <= data@.len(),
            crc == crc8_spec(data@.take(i as int)),
        decreases data@.len() - i,
    {
        assert(data@.take(i + 1).drop_last() =~= data@.take(i as int));
        let idx: u8 = crc ^ data[i];
        crc = CRC_TABLE[idx as usize];
        i = i + 1;
    }
    assert(data@.take(data@.len() as int) =~= data@);
    crc
}

/// Appending its own checksum to a byte sequence makes the checksum of the whole zero.
pub proof fn lemma_crc_of_sealed_data_is_zero(data: Seq<u8>)
    ensures
        crc8_spec(data.push(crc8_spec(data))) == 0,
{
    let c = crc8_spec(data);
    assert(data.push(c).drop_last() =~= data);
    assert(c ^ c == 0u8) by (bit_vector);
}

/// One shift of the CRC-8 register (polynomial 0x4D, most significant bit first).
spec fn crc8_shift(c: u8) -> u8 {
    if c & 0x80u8 == 0u8 {
        c << 1u8
    } else {
        (c << 1u8) ^ 0x4du8
    }
}

/// The table entry for `x`: the register after shifting `x` through all eight bits.
spec fn crc8_table_entry(x: u8) -> u8 {
    crc8_shift(crc8_shift(crc8_shift(crc8_shift(crc8_shift(crc8_shift(crc8_shift(crc8_shift(x))))))))
}

/// Each table entry is a linear function of its index.
proof fn lemma_table_entry_linear()
    by (bit_vector)
    ensures
        forall|x: u8, y: u8| #[trigger] crc8_table_entry(x ^ y) == crc8_table_entry(x) ^ crc8_table_entry(y),
{
}

/// The value of every table entry, computed from the register shifts.
proof fn lemma_table_entry_values()
    by (bit_vector)
    ensures
        crc8_table_entry(0u8) == 0x00u8 &&
        crc8_table_entry(1u8) == 0x4du8 &&
        crc8_table_entry(2u8) == 0x9au8 &&
        crc8_table_entry(3u8) == 0xd7u8 &&
        crc8_table_entry(4u8) == 0x79u8 &&
        crc8_table_entry(5u8) == 0x34u8 &&
        crc8_table_entry(6u8) == 0xe3u8 &&
        crc8_table_entry(7u8) == 0xaeu8 &&
        crc8_table_entry(8u8) == 0xf2u8 &&
        crc8_table_entry(9u8) == 0xbfu8 &&
        crc8_table_entry(10u8) == 0x68u8 &&
        crc8_table_entry(11u8) == 0x25u8 &&
        crc8_table_entry(12u8) == 0x8bu8 &&
        crc8_table_entry(13u8) == 0xc6u8 &&
        crc8_table_entry(14u8) == 0x11u8 &&
        crc8_table_entry(15u8) == 0x5cu8 &&
        crc8_table_entry(16u8) == 0xa9u8 &&
        crc8_table_entry(17u8) == 0xe4u8 &&
        crc8_table_entry(18u8) == 0x33u8 &&
        crc8_table_entry(19u8) == 0x7eu8 &&
        crc8_table_entry(20u8) == 0xd0u8 &&
        crc8_table_entry(21u8) == 0x9du8 &&
        crc8_table_entry(22u8) == 0x4au8 &&
        crc8_table_entry(23u8) == 0x07u8 &&
        crc8_table_entry(24u8) == 0x5bu8 &&
        crc8_table_entry(25u8) == 0x16u8 &&
        crc8_table_entry(26u8) == 0xc1u8 &&
        crc8_table_entry(27u8) == 0x8cu8 &&
        crc8_table_entry(28u8) == 0x22u8 &&
        crc8_table_entry(29u8) == 0x6fu8 &&
        crc8_table_entry(30u8) == 0xb8u8 &&
        crc8_table_entry(31u8) == 0xf5u8 &&
        crc8_table_entry(32u8) == 0x1fu8 &&
        crc8_table_entry(33u8) == 0x52u8 &&
        crc8_table_entry(34u8) == 0x85u8 &&
        crc8_table_entry(35u8) == 0xc8u8 &&
        crc8_table_entry(36u8) == 0x66u8 &&
        crc8_table_entry(37u8) == 0x2bu8 &&
        crc8_table_entry(38u8) == 0xfcu8 &&
        crc8_table_entry(39u8) == 0xb1u8 &&
        crc8_table_entry(40u8) == 0xedu8 &&
        crc8_table_entry(41u8) == 0xa0u8 &&
        crc8_table_entry(42u8) == 0x77u8 &&
        crc8_table_entry(43u8) == 0x3au8 &&
        crc8_table_entry(44u8) == 0x94u8 &&
        crc8_table_entry(45u8) == 0xd9u8 &&
        crc8_table_entry(46u8) == 0x0eu8 &&
        crc8_table_entry(47u8) == 0x43u8 &&
        crc8_table_entry(48u8) == 0xb6u8 &&
        crc8_table_entry(49u8) == 0xfbu8 &&
        crc8_table_entry(50u8) == 0x2cu8 &&
        crc8_table_entry(51u8) == 0x61u8 &&
        crc8_table_entry(52u8) == 0xcfu8 &&
        crc8_table_entry(53u8) == 0x82u8 &&
        crc8_table_entry(54u8) == 0x55u8 &&
        crc8_table_entry(55u8) == 0x18u8 &&
        crc8_table_entry(56u8) == 0x44u8 &&
        crc8_table_entry(57u8) == 0x09u8 &&
        crc8_table_entry(58u8) == 0xdeu8 &&
        crc8_table_entry(59u8) == 0x93u8 &&
        crc8_table_entry(60u8) == 0x3du8 &&
        crc8_table_entry(61u8) == 0x70u8 &&
        crc8_table_entry(62u8) == 0xa7u8 &&
        crc8_table_entry(63u8) == 0xeau8 &&
        crc8_table_entry(64u8) == 0x3eu8 &&
        crc8_table_entry(65u8) == 0x73u8 &&
        crc8_table_entry(66u8) == 0xa4u8 &&
        crc8_table_entry(67u8) == 0xe9u8 &&
        crc8_table_entry(68u8) == 0x47u8 &&
        crc8_table_entry(69u8) == 0x0au8 &&
        crc8_table_entry(70u8) == 0xddu8 &&
        crc8_table_entry(71u8) == 0x90u8 &&
        crc8_table_entry(72u8) == 0xccu8 &&
        crc8_table_entry(73u8) == 0x81u8 &&
        crc8_table_entry(74u8) == 0x56u8 &&
        crc8_table_entry(75u8) == 0x1bu8 &&
        crc8_table_entry(76u8) == 0xb5u8 &&
        crc8_table_entry(77u8) == 0xf8u8 &&
        crc8_table_entry(78u8) == 0x2fu8 &&
        crc8_table_entry(79u8) == 0x62u8 &&
        crc8_table_entry(80u8) == 0x97u8 &&
        crc8_table_entry(81u8) == 0xdau8 &&
        crc8_table_entry(82u8) == 0x0du8 &&
        crc8_table_entry(83u8) == 0x40u8 &&
        crc8_table_entry(84u8) == 0xeeu8 &&
        crc8_table_entry(85u8) == 0xa3u8 &&
        crc8_table_entry(86u8) == 0x74u8 &&
        crc8_table_entry(87u8) == 0x39u8 &&
        crc8_table_entry(88u8) == 0x65u8 &&
        crc8_table_entry(89u8) == 0x28u8 &&
        crc8_table_entry(90u8) == 0xffu8 &&
        crc8_table_entry(91u8) == 0xb2u8 &&
        crc8_table_entry(92u8) == 0x1cu8 &&
        crc8_table_entry(93u8) == 0x51u8 &&
        crc8_table_entry(94u8) == 0x86u8 &&
        crc8_table_entry(95u8) == 0xcbu8 &&
        crc8_table_entry(96u8) == 0x21u8 &&
        crc8_table_entry(97u8) == 0x6cu8 &&
        crc8_table_entry(98u8) == 0xbbu8 &&
        crc8_table_entry(99u8) == 0xf6u8 &&
        crc8_table_entry(100u8) == 0x58u8 &&
        crc8_table_entry(101u8) == 0x15u8 &&
        crc8_table_entry(102u8) == 0xc2u8 &&
        crc8_table_entry(103u8) == 0x8fu8 &&
        crc8_table_entry(104u8) == 0xd3u8 &&
        crc8_table_entry(105u8) == 0x9eu8 &&
        crc8_table_entry(106u8) == 0x49u8 &&
        crc8_table_entry(107u8) == 0x04u8 &&
        crc8_table_entry(108u8) == 0xaau8 &&
        crc8_table_entry(109u8) == 0xe7u8 &&
        crc8_table_entry(110u8) == 0x30u8 &&
        crc8_table_entry(111u8) == 0x7du8 &&
        crc8_table_entry(112u8) == 0x88u8 &&
        crc8_table_entry(113u8) == 0xc5u8 &&
        crc8_table_entry(114u8) == 0x12u8 &&
        crc8_table_entry(115u8) == 0x5fu8 &&
        crc8_table_entry(116u8) == 0xf1u8 &&
        crc8_table_entry(117u8) == 0xbcu8 &&
        crc8_table_entry(118u8) == 0x6bu8 &&
        crc8_table_entry(119u8) == 0x26u8 &&
        crc8_table_entry(120u8) == 0x7au8 &&
        crc8_table_entry(121u8) == 0x37u8 &&
        crc8_table_entry(122u8) == 0xe0u8 &&
        crc8_table_entry(123u8) == 0xadu8 &&
        crc8_table_entry(124u8) == 0x03u8 &&
        crc8_table_entry(125u8) == 0x4eu8 &&
        crc8_table_entry(126u8) == 0x99u8 &&
        crc8_table_entry(127u8) == 0xd4u8 &&
        crc8_table_entry(128u8) == 0x7cu8 &&
        crc8_table_entry(129u8) == 0x31u8 &&
        crc8_table_entry(130u8) == 0xe6u8 &&
        crc8_table_entry(131u8) == 0xabu8 &&
        crc8_table_entry(132u8) == 0x05u8 &&
        crc8_table_entry(133u8) == 0x48u8 &&
        crc8_table_entry(134u8) == 0x9fu8 &&
        crc8_table_entry(135u8) == 0xd2u8 &&
        crc8_table_entry(136u8) == 0x8eu8 &&
        crc8_table_entry(137u8) == 0xc3u8 &&
        crc8_table_entry(138u8) == 0x14u8 &&
        crc8_table_entry(139u8) == 0x59u8 &&
        crc8_table_entry(140u8) == 0xf7u8 &&
        crc8_table_entry(141u8) == 0xbau8 &&
        crc8_table_entry(142u8) == 0x6du8 &&
        crc8_table_entry(143u8) == 0x20u8 &&
        crc8_table_entry(144u8) == 0xd5u8 &&
        crc8_table_entry(145u8) == 0x98u8 &&
        crc8_table_entry(146u8) == 0x4fu8 &&
        crc8_table_entry(147u8) == 0x02u8 &&
        crc8_table_entry(148u8) == 0xacu8 &&
        crc8_table_entry(149u8) == 0xe1u8 &&
        crc8_table_entry(150u8) == 0x36u8 &&
        crc8_table_entry(151u8) == 0x7bu8 &&
        crc8_table_entry(152u8) == 0x27u8 &&
        crc8_table_entry(153u8) == 0x6au8 &&
        crc8_table_entry(154u8) == 0xbdu8 &&
        crc8_table_entry(155u8) == 0xf0u8 &&
        crc8_table_entry(156u8) == 0x5eu8 &&
        crc8_table_entry(157u8) == 0x13u8 &&
        crc8_table_entry(158u8) == 0xc4u8 &&
        crc8_table_entry(159u8) == 0x89u8 &&
        crc8_table_entry(160u8) == 0x63u8 &&
        crc8_table_entry(161u8) == 0x2eu8 &&
        crc8_table_entry(162u8) == 0xf9u8 &&
        crc8_table_entry(163u8) == 0xb4u8 &&
        crc8_table_entry(164u8) == 0x1au8 &&
        crc8_table_entry(165u8) == 0x57u8 &&
        crc8_table_entry(166u8) == 0x80u8 &&
        crc8_table_entry(167u8) == 0xcdu8 &&
        crc8_table_entry(168u8) == 0x91u8 &&
        crc8_table_entry(169u8) == 0xdcu8 &&
        crc8_table_entry(170u8) == 0x0bu8 &&
        crc8_table_entry(171u8) == 0x46u8 &&
        crc8_table_entry(172u8) == 0xe8u8 &&
        crc8_table_entry(173u8) == 0xa5u8 &&
        crc8_table_entry(174u8) == 0x72u8 &&
        crc8_table_entry(175u8) == 0x3fu8 &&
        crc8_table_entry(176u8) == 0xcau8 &&
        crc8_table_entry(177u8) == 0x87u8 &&
        crc8_table_entry(178u8) == 0x50u8 &&
        crc8_table_entry(179u8) == 0x1du8 &&
        crc8_table_entry(180u8) == 0xb3u8 &&
        crc8_table_entry(181u8) == 0xfeu8 &&
        crc8_table_entry(182u8) == 0x29u8 &&
        crc8_table_entry(183u8) == 0x64u8 &&
        crc8_table_entry(184u8) == 0x38u8 &&
        crc8_table_entry(185u8) == 0x75u8 &&
        crc8_table_entry(186u8) == 0xa2u8 &&
        crc8_table_entry(187u8) == 0xefu8 &&
        crc8_table_entry(188u8) == 0x41u8 &&
        crc8_table_entry(189u8) == 0x0cu8 &&
        crc8_table_entry(190u8) == 0xdbu8 &&
        crc8_table_entry(191u8) == 0x96u8 &&
        crc8_table_entry(192u8) == 0x42u8 &&
        crc8_table_entry(193u8) == 0x0fu8 &&
        crc8_table_entry(194u8) == 0xd8u8 &&
        crc8_table_entry(195u8) == 0x95u8 &&
        crc8_table_entry(196u8) == 0x3bu8 &&
        crc8_table_entry(197u8) == 0x76u8 &&
        crc8_table_entry(198u8) == 0xa1u8 &&
        crc8_table_entry(199u8) == 0xecu8 &&
        crc8_table_entry(200u8) == 0xb0u8 &&
        crc8_table_entry(201u8) == 0xfdu8 &&
        crc8_table_entry(202u8) == 0x2au8 &&
        crc8_table_entry(203u8) == 0x67u8 &&
        crc8_table_entry(204u8) == 0xc9u8 &&
        crc8_table_entry(205u8) == 0x84u8 &&
        crc8_table_entry(206u8) == 0x53u8 &&
        crc8_table_entry(207u8) == 0x1eu8 &&
        crc8_table_entry(208u8) == 0xebu8 &&
        crc8_table_entry(209u8) == 0xa6u8 &&
        crc8_table_entry(210u8) == 0x71u8 &&
        crc8_table_entry(211u8) == 0x3cu8 &&
        crc8_table_entry(212u8) == 0x92u8 &&
        crc8_table_entry(213u8) == 0xdfu8 &&
        crc8_table_entry(214u8) == 0x08u8 &&
        crc8_table_entry(215u8) == 0x45u8 &&
        crc8_table_entry(216u8) == 0x19u8 &&
        crc8_table_entry(217u8) == 0x54u8 &&
        crc8_table_entry(218u8) == 0x83u8 &&
        crc8_table_entry(219u8) == 0xceu8 &&
        crc8_table_entry(220u8) == 0x60u8 &&
        crc8_table_entry(221u8) == 0x2du8 &&
        crc8_table_entry(222u8) == 0xfau8 &&
        crc8_table_entry(223u8) == 0xb7u8 &&
        crc8_table_entry(224u8) == 0x5du8 &&
        crc8_table_entry(225u8) == 0x10u8 &&
        crc8_table_entry(226u8) == 0xc7u8 &&
        crc8_table_entry(227u8) == 0x8au8 &&
        crc8_table_entry(228u8) == 0x24u8 &&
        crc8_table_entry(229u8) == 0x69u8 &&
        crc8_table_entry(230u8) == 0xbeu8 &&
        crc8_table_entry(231u8) == 0xf3u8 &&
        crc8_table_entry(232u8) == 0xafu8 &&
        crc8_table_entry(233u8) == 0xe2u8 &&
        crc8_table_entry(234u8) == 0x35u8 &&
        crc8_table_entry(235u8) == 0x78u8 &&
        crc8_table_entry(236u8) == 0xd6u8 &&
        crc8_table_entry(237u8) == 0x9bu8 &&
        crc8_table_entry(238u8) == 0x4cu8 &&
        crc8_table_entry(239u8) == 0x01u8 &&
        crc8_table_entry(240u8) == 0xf4u8 &&
        crc8_table_entry(241u8) == 0xb9u8 &&
        crc8_table_entry(242u8) == 0x6eu8 &&
        crc8_table_entry(243u8) == 0x23u8 &&
        crc8_table_entry(244u8) == 0x8du8 &&
        crc8_table_entry(245u8) == 0xc0u8 &&
        crc8_table_entry(246u8) == 0x17u8 &&
        crc8_table_entry(247u8) == 0x5au8 &&
        crc8_table_entry(248u8) == 0x06u8 &&
        crc8_table_entry(249u8) == 0x4bu8 &&
        crc8_table_entry(250u8) == 0x9cu8 &&
        crc8_table_entry(251u8) == 0xd1u8 &&
        crc8_table_entry(252u8) == 0x7fu8 &&
        crc8_table_entry(253u8) == 0x32u8 &&
        crc8_table_entry(254u8) == 0xe5u8 &&
        crc8_table_entry(255u8) == 0xa8u8
{
}

/// The lookup table holds exactly the register-shift entries.
proof fn lemma_table_matches_entries()
    ensures
        forall|x: u8| #[trigger] CRC_TABLE@[x as int] == crc8_table_entry(x),
{
    lemma_table_entry_values();
    assert forall|x: u8| #[trigger] CRC_TABLE@[x as int] == crc8_table_entry(x) by {
        // Naming every byte value lets the solver split on them, so that each
        // case reads one entry of the table.
        assert(
            x == 0u8 || x == 1u8 || x == 2u8 || x == 3u8 || x == 4u8 || x == 5u8 || x == 6u8 || x == 7u8 ||
            x == 8u8 || x == 9u8 || x == 10u8 || x == 11u8 || x == 12u8 || x == 13u8 || x == 14u8 || x == 15u8 ||
            x == 16u8 || x == 17u8 || x == 18u8 || x == 19u8 || x == 20u8 || x == 21u8 || x == 22u8 || x == 23u8 ||
            x == 24u8 || x == 25u8 || x == 26u8 || x == 27u8 || x == 28u8 || x == 29u8 || x == 30u8 || x == 31u8 ||
            x == 32u8 || x == 33u8 || x == 34u8 || x == 35u8 || x == 36u8 || x == 37u8 || x == 38u8 || x == 39u8 ||
            x == 40u8 || x == 41u8 || x == 42u8 || x == 43u8 || x == 44u8 || x == 45u8 || x == 46u8 || x == 47u8 ||
            x == 48u8 || x == 49u8 || x == 50u8 || x == 51u8 || x == 52u8 || x == 53u8 || x == 54u8 || x == 55u8 ||
            x == 56u8 || x == 57u8 || x == 58u8 || x == 59u8 || x == 60u8 || x == 61u8 || x == 62u8 || x == 63u8 ||
            x == 64u8 || x == 65u8 || x == 66u8 || x == 67u8 || x == 68u8 || x == 69u8 || x == 70u8 || x == 71u8 ||
            x == 72u8 || x == 73u8 || x == 74u8 || x == 75u8 || x == 76u8 || x == 77u8 || x == 78u8 || x == 79u8 ||
            x == 80u8 || x == 81u8 || x == 82u8 || x == 83u8 || x == 84u8 || x == 85u8 || x == 86u8 || x == 87u8 ||
            x == 88u8 || x == 89u8 || x == 90u8 || x == 91u8 || x == 92u8 || x == 93u8 || x == 94u8 || x == 95u8 ||
            x == 96u8 || x == 97u8 || x == 98u8 || x == 99u8 || x == 100u8 || x == 101u8 || x == 102u8 || x == 103u8 ||
            x == 104u8 || x == 105u8 || x == 106u8 || x == 107u8 || x == 108u8 || x == 109u8 || x == 110u8 || x == 111u8 ||
            x == 112u8 || x == 113u8 || x == 114u8 || x == 115u8 || x == 116u8 || x == 117u8 || x == 118u8 || x == 119u8 ||
            x == 120u8 || x == 121u8 || x == 122u8 || x == 123u8 || x == 124u8 || x == 125u8 || x == 126u8 || x == 127u8 ||
            x == 128u8 || x == 129u8 || x == 130u8 || x == 131u8 || x == 132u8 || x == 133u8 || x == 134u8 || x == 135u8 ||
            x == 136u8 || x == 137u8 || x == 138u8 || x == 139u8 || x == 140u8 || x == 141u8 || x == 142u8 || x == 143u8 ||
            x == 144u8 || x == 145u8 || x == 146u8 || x == 147u8 || x == 148u8 || x == 149u8 || x == 150u8 || x == 151u8 ||
            x == 152u8 || x == 153u8 || x == 154u8 || x == 155u8 || x == 156u8 || x == 157u8 || x == 158u8 || x == 159u8 ||
            x == 160u8 || x == 161u8 || x == 162u8 || x == 163u8 || x == 164u8 || x == 165u8 || x == 166u8 || x == 167u8 ||
            x == 168u8 || x == 169u8 || x == 170u8 || x == 171u8 || x == 172u8 || x == 173u8 || x == 174u8 || x == 175u8 ||
            x == 176u8 || x == 177u8 || x == 178u8 || x == 179u8 || x == 180u8 || x == 181u8 || x == 182u8 || x == 183u8 ||
            x == 184u8 || x == 185u8 || x == 186u8 || x == 187u8 || x == 188u8 || x == 189u8 || x == 190u8 || x == 191u8 ||
            x == 192u8 || x == 193u8 || x == 194u8 || x == 195u8 || x == 196u8 || x == 197u8 || x == 198u8 || x == 199u8 ||
            x == 200u8 || x == 201u8 || x == 202u8 || x == 203u8 || x == 204u8 || x == 205u8 || x == 206u8 || x == 207u8 ||
            x == 208u8 || x == 209u8 || x == 210u8 || x == 211u8 || x == 212u8 || x == 213u8 || x == 214u8 || x == 215u8 ||
            x == 216u8 || x == 217u8 || x == 218u8 || x == 219u8 || x == 220u8 || x == 221u8 || x == 222u8 || x == 223u8 ||
            x == 224u8 || x == 225u8 || x == 226u8 || x == 227u8 || x == 228u8 || x == 229u8 || x == 230u8 || x == 231u8 ||
            x == 232u8 || x == 233u8 || x == 234u8 || x == 235u8 || x == 236u8 || x == 237u8 || x == 238u8 || x == 239u8 ||
            x == 240u8 || x == 241u8 || x == 242u8 || x == 243u8 || x == 244u8 || x == 245u8 || x == 246u8 || x == 247u8 ||
            x == 248u8 || x == 249u8 || x == 250u8 || x == 251u8 || x == 252u8 || x == 253u8 || x == 254u8 || x == 255u8
        ) by (bit_vector);
    }
}

/// Bytewise exclusive or of two byte sequences of equal length.
pub open spec fn xor_bytes(a: Seq<u8>, b: Seq<u8>) -> Seq<u8>
    recommends
        a.len() == b.len(),
{
    Seq::new(a.len(), |i: int| a[i] ^ b[i])
}

/// The checksum is linear: for two inputs of equal length, the checksum of their
/// bytewise exclusive or is the exclusive or of their checksums.
pub proof fn lemma_crc_of_xor(a: Seq<u8>, b: Seq<u8>)
    requires
        a.len() == b.len(),
    ensures
        crc8_spec(xor_bytes(a, b)) == crc8_spec(a) ^ crc8_spec(b),
    decreases a.len(),
{
    if a.len() == 0 {
        assert(0u8 ^ 0u8 == 0u8) by (bit_vector);
    } else {
        let x = xor_bytes(a, b);
        assert(x.drop_last() =~= xor_bytes(a.drop_last(), b.drop_last()));
        lemma_crc_of_xor(a.drop_last(), b.drop_last());
        let ca = crc8_spec(a.drop_last());
        let cb = crc8_spec(b.drop_last());
        let la = a.last();
        let lb = b.last();
        assert(x.last() == la ^ lb);
        assert((ca ^ cb) ^ (la ^ lb) == (ca ^ la) ^ (cb ^ lb)) by (bit_vector);
        lemma_table_entry_linear();
        lemma_table_matches_entries();
        assert(crc8_table_entry((ca ^ la) ^ (cb ^ lb)) == crc8_table_entry(ca ^ la)
            ^ crc8_table_entry(cb ^ lb));
    }
}

} // verus!
