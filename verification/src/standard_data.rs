use vstd::prelude::*;

verus! {

/// Glyph names and the code points they stand for, in ascending order of the
/// names: the standard Latin character set and the further characters of
/// MacRomanEncoding.
pub const GLYPH_NAMES: [(&'static str, u16); 244] = [
    ("A", 0x0041), ("AE", 0x00c6), ("Aacute", 0x00c1), ("Acircumflex", 0x00c2),
    ("Adieresis", 0x00c4), ("Agrave", 0x00c0), ("Aring", 0x00c5), ("Atilde", 0x00c3),
    ("B", 0x0042), ("C", 0x0043), ("Ccedilla", 0x00c7), ("D", 0x0044), ("Delta", 0x2206),
    ("E", 0x0045), ("Eacute", 0x00c9), ("Ecircumflex", 0x00ca), ("Edieresis", 0x00cb),
    ("Egrave", 0x00c8), ("Eth", 0x00d0), ("Euro", 0x20ac), ("F", 0x0046), ("G", 0x0047),
    ("H", 0x0048), ("I", 0x0049), ("Iacute", 0x00cd), ("Icircumflex", 0x00ce),
    ("Idieresis", 0x00cf), ("Igrave", 0x00cc), ("J", 0x004a), ("K", 0x004b), ("L", 0x004c),
    ("Lslash", 0x0141), ("M", 0x004d), ("N", 0x004e), ("Ntilde", 0x00d1), ("O", 0x004f),
    ("OE", 0x0152), ("Oacute", 0x00d3), ("Ocircumflex", 0x00d4), ("Odieresis", 0x00d6),
    ("Ograve", 0x00d2), ("Omega", 0x2126), ("Oslash", 0x00d8), ("Otilde", 0x00d5),
    ("P", 0x0050), ("Q", 0x0051), ("R", 0x0052), ("S", 0x0053), ("Scaron", 0x0160),
    ("T", 0x0054), ("Thorn", 0x00de), ("U", 0x0055), ("Uacute", 0x00da),
    ("Ucircumflex", 0x00db), ("Udieresis", 0x00dc), ("Ugrave", 0x00d9), ("V", 0x0056),
    ("W", 0x0057), ("X", 0x0058), ("Y", 0x0059), ("Yacute", 0x00dd), ("Ydieresis", 0x0178),
    ("Z", 0x005a), ("Zcaron", 0x017d), ("a", 0x0061), ("aacute", 0x00e1),
    ("acircumflex", 0x00e2), ("acute", 0x00b4), ("adieresis", 0x00e4), ("ae", 0x00e6),
    ("agrave", 0x00e0), ("ampersand", 0x0026), ("apple", 0xf8ff), ("approxequal", 0x2248),
    ("aring", 0x00e5), ("asciicircum", 0x005e), ("asciitilde", 0x007e), ("asterisk", 0x002a),
    ("at", 0x0040), ("atilde", 0x00e3), ("b", 0x0062), ("backslash", 0x005c), ("bar", 0x007c),
    ("braceleft", 0x007b), ("braceright", 0x007d), ("bracketleft", 0x005b),
    ("bracketright", 0x005d), ("breve", 0x02d8), ("brokenbar", 0x00a6), ("bullet", 0x2022),
    ("c", 0x0063), ("caron", 0x02c7), ("ccedilla", 0x00e7), ("cedilla", 0x00b8),
    ("cent", 0x00a2), ("circumflex", 0x02c6), ("colon", 0x003a), ("comma", 0x002c),
    ("copyright", 0x00a9), ("currency", 0x00a4), ("d", 0x0064), ("dagger", 0x2020),
    ("daggerdbl", 0x2021), ("degree", 0x00b0), ("dieresis", 0x00a8), ("divide", 0x00f7),
    ("dollar", 0x0024), ("dotaccent", 0x02d9), ("dotlessi", 0x0131), ("e", 0x0065),
    ("eacute", 0x00e9), ("ecircumflex", 0x00ea), ("edieresis", 0x00eb), ("egrave", 0x00e8),
    ("eight", 0x0038), ("ellipsis", 0x2026), ("emdash", 0x2014), ("endash", 0x2013),
    ("equal", 0x003d), ("eth", 0x00f0), ("exclam", 0x0021), ("exclamdown", 0x00a1),
    ("f", 0x0066), ("fi", 0xfb01), ("five", 0x0035), ("fl", 0xfb02), ("florin", 0x0192),
    ("four", 0x0034), ("fraction", 0x2044), ("g", 0x0067), ("germandbls", 0x00df),
    ("grave", 0x0060), ("greater", 0x003e), ("greaterequal", 0x2265), ("guillemotleft", 0x00ab),
    ("guillemotright", 0x00bb), ("guilsinglleft", 0x2039), ("guilsinglright", 0x203a),
    ("h", 0x0068), ("hungarumlaut", 0x02dd), ("hyphen", 0x002d), ("i", 0x0069),
    ("iacute", 0x00ed), ("icircumflex", 0x00ee), ("idieresis", 0x00ef), ("igrave", 0x00ec),
    ("infinity", 0x221e), ("integral", 0x222b), ("j", 0x006a), ("k", 0x006b), ("l", 0x006c),
    ("less", 0x003c), ("lessequal", 0x2264), ("logicalnot", 0x00ac), ("lozenge", 0x25ca),
    ("lslash", 0x0142), ("m", 0x006d), ("macron", 0x00af), ("minus", 0x2212), ("mu", 0x00b5),
    ("multiply", 0x00d7), ("n", 0x006e), ("nine", 0x0039), ("notequal", 0x2260),
    ("ntilde", 0x00f1), ("numbersign", 0x0023), ("o", 0x006f), ("oacute", 0x00f3),
    ("ocircumflex", 0x00f4), ("odieresis", 0x00f6), ("oe", 0x0153), ("ogonek", 0x02db),
    ("ograve", 0x00f2), ("one", 0x0031), ("onehalf", 0x00bd), ("onequarter", 0x00bc),
    ("onesuperior", 0x00b9), ("ordfeminine", 0x00aa), ("ordmasculine", 0x00ba),
    ("oslash", 0x00f8), ("otilde", 0x00f5), ("p", 0x0070), ("paragraph", 0x00b6),
    ("parenleft", 0x0028), ("parenright", 0x0029), ("partialdiff", 0x2202), ("percent", 0x0025),
    ("period", 0x002e), ("periodcentered", 0x00b7), ("perthousand", 0x2030), ("pi", 0x03c0),
    ("plus", 0x002b), ("plusminus", 0x00b1), ("product", 0x220f), ("q", 0x0071),
    ("question", 0x003f), ("questiondown", 0x00bf), ("quotedbl", 0x0022),
    ("quotedblbase", 0x201e), ("quotedblleft", 0x201c), ("quotedblright", 0x201d),
    ("quoteleft", 0x2018), ("quoteright", 0x2019), ("quotesinglbase", 0x201a),
    ("quotesingle", 0x0027), ("r", 0x0072), ("radical", 0x221a), ("registered", 0x00ae),
    ("ring", 0x02da), ("s", 0x0073), ("scaron", 0x0161), ("section", 0x00a7),
    ("semicolon", 0x003b), ("seven", 0x0037), ("six", 0x0036), ("slash", 0x002f),
    ("space", 0x0020), ("sterling", 0x00a3), ("summation", 0x2211), ("t", 0x0074),
    ("thorn", 0x00fe), ("three", 0x0033), ("threequarters", 0x00be), ("threesuperior", 0x00b3),
    ("tilde", 0x02dc), ("trademark", 0x2122), ("two", 0x0032), ("twosuperior", 0x00b2),
    ("u", 0x0075), ("uacute", 0x00fa), ("ucircumflex", 0x00fb), ("udieresis", 0x00fc),
    ("ugrave", 0x00f9), ("underscore", 0x005f), ("v", 0x0076), ("w", 0x0077), ("x", 0x0078),
    ("y", 0x0079), ("yacute", 0x00fd), ("ydieresis", 0x00ff), ("yen", 0x00a5), ("z", 0x007a),
    ("zcaron", 0x017e), ("zero", 0x0030),
];

/// MacRomanEncoding: the glyph name of each assigned code.
pub const MAC_ROMAN_ENCODING: [(u8, &'static str); 223] = [
    (0x20, "space"), (0x21, "exclam"), (0x22, "quotedbl"), (0x23, "numbersign"),
    (0x24, "dollar"), (0x25, "percent"), (0x26, "ampersand"), (0x27, "quotesingle"),
    (0x28, "parenleft"), (0x29, "parenright"), (0x2a, "asterisk"), (0x2b, "plus"),
    (0x2c, "comma"), (0x2d, "hyphen"), (0x2e, "period"), (0x2f, "slash"), (0x30, "zero"),
    (0x31, "one"), (0x32, "two"), (0x33, "three"), (0x34, "four"), (0x35, "five"),
    (0x36, "six"), (0x37, "seven"), (0x38, "eight"), (0x39, "nine"), (0x3a, "colon"),
    (0x3b, "semicolon"), (0x3c, "less"), (0x3d, "equal"), (0x3e, "greater"), (0x3f, "question"),
    (0x40, "at"), (0x41, "A"), (0x42, "B"), (0x43, "C"), (0x44, "D"), (0x45, "E"), (0x46, "F"),
    (0x47, "G"), (0x48, "H"), (0x49, "I"), (0x4a, "J"), (0x4b, "K"), (0x4c, "L"), (0x4d, "M"),
    (0x4e, "N"), (0x4f, "O"), (0x50, "P"), (0x51, "Q"), (0x52, "R"), (0x53, "S"), (0x54, "T"),
    (0x55, "U"), (0x56, "V"), (0x57, "W"), (0x58, "X"), (0x59, "Y"), (0x5a, "Z"),
    (0x5b, "bracketleft"), (0x5c, "backslash"), (0x5d, "bracketright"), (0x5e, "asciicircum"),
    (0x5f, "underscore"), (0x60, "grave"), (0x61, "a"), (0x62, "b"), (0x63, "c"), (0x64, "d"),
    (0x65, "e"), (0x66, "f"), (0x67, "g"), (0x68, "h"), (0x69, "i"), (0x6a, "j"), (0x6b, "k"),
    (0x6c, "l"), (0x6d, "m"), (0x6e, "n"), (0x6f, "o"), (0x70, "p"), (0x71, "q"), (0x72, "r"),
    (0x73, "s"), (0x74, "t"), (0x75, "u"), (0x76, "v"), (0x77, "w"), (0x78, "x"), (0x79, "y"),
    (0x7a, "z"), (0x7b, "braceleft"), (0x7c, "bar"), (0x7d, "braceright"), (0x7e, "asciitilde"),
    (0x80, "Adieresis"), (0x81, "Aring"), (0x82, "Ccedilla"), (0x83, "Eacute"),
    (0x84, "Ntilde"), (0x85, "Odieresis"), (0x86, "Udieresis"), (0x87, "aacute"),
    (0x88, "agrave"), (0x89, "acircumflex"), (0x8a, "adieresis"), (0x8b, "atilde"),
    (0x8c, "aring"), (0x8d, "ccedilla"), (0x8e, "eacute"), (0x8f, "egrave"),
    (0x90, "ecircumflex"), (0x91, "edieresis"), (0x92, "iacute"), (0x93, "igrave"),
    (0x94, "icircumflex"), (0x95, "idieresis"), (0x96, "ntilde"), (0x97, "oacute"),
    (0x98, "ograve"), (0x99, "ocircumflex"), (0x9a, "odieresis"), (0x9b, "otilde"),
    (0x9c, "uacute"), (0x9d, "ugrave"), (0x9e, "ucircumflex"), (0x9f, "udieresis"),
    (0xa0, "dagger"), (0xa1, "degree"), (0xa2, "cent"), (0xa3, "sterling"), (0xa4, "section"),
    (0xa5, "bullet"), (0xa6, "paragraph"), (0xa7, "germandbls"), (0xa8, "registered"),
    (0xa9, "copyright"), (0xaa, "trademark"), (0xab, "acute"), (0xac, "dieresis"),
    (0xad, "notequal"), (0xae, "AE"), (0xaf, "Oslash"), (0xb0, "infinity"), (0xb1, "plusminus"),
    (0xb2, "lessequal"), (0xb3, "greaterequal"), (0xb4, "yen"), (0xb5, "mu"),
    (0xb6, "partialdiff"), (0xb7, "summation"), (0xb8, "product"), (0xb9, "pi"),
    (0xba, "integral"), (0xbb, "ordfeminine"), (0xbc, "ordmasculine"), (0xbd, "Omega"),
    (0xbe, "ae"), (0xbf, "oslash"), (0xc0, "questiondown"), (0xc1, "exclamdown"),
    (0xc2, "logicalnot"), (0xc3, "radical"), (0xc4, "florin"), (0xc5, "approxequal"),
    (0xc6, "Delta"), (0xc7, "guillemotleft"), (0xc8, "guillemotright"), (0xc9, "ellipsis"),
    (0xca, "space"), (0xcb, "Agrave"), (0xcc, "Atilde"), (0xcd, "Otilde"), (0xce, "OE"),
    (0xcf, "oe"), (0xd0, "endash"), (0xd1, "emdash"), (0xd2, "quotedblleft"),
    (0xd3, "quotedblright"), (0xd4, "quoteleft"), (0xd5, "quoteright"), (0xd6, "divide"),
    (0xd7, "lozenge"), (0xd8, "ydieresis"), (0xd9, "Ydieresis"), (0xda, "fraction"),
    (0xdb, "currency"), (0xdc, "guilsinglleft"), (0xdd, "guilsinglright"), (0xde, "fi"),
    (0xdf, "fl"), (0xe0, "daggerdbl"), (0xe1, "periodcentered"), (0xe2, "quotesinglbase"),
    (0xe3, "quotedblbase"), (0xe4, "perthousand"), (0xe5, "Acircumflex"), (0xe6, "Ecircumflex"),
    (0xe7, "Aacute"), (0xe8, "Edieresis"), (0xe9, "Egrave"), (0xea, "Iacute"),
    (0xeb, "Icircumflex"), (0xec, "Idieresis"), (0xed, "Igrave"), (0xee, "Oacute"),
    (0xef, "Ocircumflex"), (0xf0, "apple"), (0xf1, "Ograve"), (0xf2, "Uacute"),
    (0xf3, "Ucircumflex"), (0xf4, "Ugrave"), (0xf5, "dotlessi"), (0xf6, "circumflex"),
    (0xf7, "tilde"), (0xf8, "macron"), (0xf9, "breve"), (0xfa, "dotaccent"), (0xfb, "ring"),
    (0xfc, "cedilla"), (0xfd, "hungarumlaut"), (0xfe, "ogonek"), (0xff, "caron"),
];

/// WinAnsiEncoding: the glyph name of each assigned code. The codes that the
/// encoding leaves unused stand for the bullet.
pub const WIN_ANSI_ENCODING: [(u8, &'static str); 224] = [
    (0x20, "space"), (0x21, "exclam"), (0x22, "quotedbl"), (0x23, "numbersign"),
    (0x24, "dollar"), (0x25, "percent"), (0x26, "ampersand"), (0x27, "quotesingle"),
    (0x28, "parenleft"), (0x29, "parenright"), (0x2a, "asterisk"), (0x2b, "plus"),
    (0x2c, "comma"), (0x2d, "hyphen"), (0x2e, "period"), (0x2f, "slash"), (0x30, "zero"),
    (0x31, "one"), (0x32, "two"), (0x33, "three"), (0x34, "four"), (0x35, "five"),
    (0x36, "six"), (0x37, "seven"), (0x38, "eight"), (0x39, "nine"), (0x3a, "colon"),
    (0x3b, "semicolon"), (0x3c, "less"), (0x3d, "equal"), (0x3e, "greater"), (0x3f, "question"),
    (0x40, "at"), (0x41, "A"), (0x42, "B"), (0x43, "C"), (0x44, "D"), (0x45, "E"), (0x46, "F"),
    (0x47, "G"), (0x48, "H"), (0x49, "I"), (0x4a, "J"), (0x4b, "K"), (0x4c, "L"), (0x4d, "M"),
    (0x4e, "N"), (0x4f, "O"), (0x50, "P"), (0x51, "Q"), (0x52, "R"), (0x53, "S"), (0x54, "T"),
    (0x55, "U"), (0x56, "V"), (0x57, "W"), (0x58, "X"), (0x59, "Y"), (0x5a, "Z"),
    (0x5b, "bracketleft"), (0x5c, "backslash"), (0x5d, "bracketright"), (0x5e, "asciicircum"),
    (0x5f, "underscore"), (0x60, "grave"), (0x61, "a"), (0x62, "b"), (0x63, "c"), (0x64, "d"),
    (0x65, "e"), (0x66, "f"), (0x67, "g"), (0x68, "h"), (0x69, "i"), (0x6a, "j"), (0x6b, "k"),
    (0x6c, "l"), (0x6d, "m"), (0x6e, "n"), (0x6f, "o"), (0x70, "p"), (0x71, "q"), (0x72, "r"),
    (0x73, "s"), (0x74, "t"), (0x75, "u"), (0x76, "v"), (0x77, "w"), (0x78, "x"), (0x79, "y"),
    (0x7a, "z"), (0x7b, "braceleft"), (0x7c, "bar"), (0x7d, "braceright"), (0x7e, "asciitilde"),
    (0x7f, "bullet"), (0x80, "Euro"), (0x81, "bullet"), (0x82, "quotesinglbase"),
    (0x83, "florin"), (0x84, "quotedblbase"), (0x85, "ellipsis"), (0x86, "dagger"),
    (0x87, "daggerdbl"), (0x88, "circumflex"), (0x89, "perthousand"), (0x8a, "Scaron"),
    (0x8b, "guilsinglleft"), (0x8c, "OE"), (0x8d, "bullet"), (0x8e, "Zcaron"), (0x8f, "bullet"),
    (0x90, "bullet"), (0x91, "quoteleft"), (0x92, "quoteright"), (0x93, "quotedblleft"),
    (0x94, "quotedblright"), (0x95, "bullet"), (0x96, "endash"), (0x97, "emdash"),
    (0x98, "tilde"), (0x99, "trademark"), (0x9a, "scaron"), (0x9b, "guilsinglright"),
    (0x9c, "oe"), (0x9d, "bullet"), (0x9e, "zcaron"), (0x9f, "Ydieresis"), (0xa0, "space"),
    (0xa1, "exclamdown"), (0xa2, "cent"), (0xa3, "sterling"), (0xa4, "currency"), (0xa5, "yen"),
    (0xa6, "brokenbar"), (0xa7, "section"), (0xa8, "dieresis"), (0xa9, "copyright"),
    (0xaa, "ordfeminine"), (0xab, "guillemotleft"), (0xac, "logicalnot"), (0xad, "hyphen"),
    (0xae, "registered"), (0xaf, "macron"), (0xb0, "degree"), (0xb1, "plusminus"),
    (0xb2, "twosuperior"), (0xb3, "threesuperior"), (0xb4, "acute"), (0xb5, "mu"),
    (0xb6, "paragraph"), (0xb7, "periodcentered"), (0xb8, "cedilla"), (0xb9, "onesuperior"),
    (0xba, "ordmasculine"), (0xbb, "guillemotright"), (0xbc, "onequarter"), (0xbd, "onehalf"),
    (0xbe, "threequarters"), (0xbf, "questiondown"), (0xc0, "Agrave"), (0xc1, "Aacute"),
    (0xc2, "Acircumflex"), (0xc3, "Atilde"), (0xc4, "Adieresis"), (0xc5, "Aring"), (0xc6, "AE"),
    (0xc7, "Ccedilla"), (0xc8, "Egrave"), (0xc9, "Eacute"), (0xca, "Ecircumflex"),
    (0xcb, "Edieresis"), (0xcc, "Igrave"), (0xcd, "Iacute"), (0xce, "Icircumflex"),
    (0xcf, "Idieresis"), (0xd0, "Eth"), (0xd1, "Ntilde"), (0xd2, "Ograve"), (0xd3, "Oacute"),
    (0xd4, "Ocircumflex"), (0xd5, "Otilde"), (0xd6, "Odieresis"), (0xd7, "multiply"),
    (0xd8, "Oslash"), (0xd9, "Ugrave"), (0xda, "Uacute"), (0xdb, "Ucircumflex"),
    (0xdc, "Udieresis"), (0xdd, "Yacute"), (0xde, "Thorn"), (0xdf, "germandbls"),
    (0xe0, "agrave"), (0xe1, "aacute"), (0xe2, "acircumflex"), (0xe3, "atilde"),
    (0xe4, "adieresis"), (0xe5, "aring"), (0xe6, "ae"), (0xe7, "ccedilla"), (0xe8, "egrave"),
    (0xe9, "eacute"), (0xea, "ecircumflex"), (0xeb, "edieresis"), (0xec, "igrave"),
    (0xed, "iacute"), (0xee, "icircumflex"), (0xef, "idieresis"), (0xf0, "eth"),
    (0xf1, "ntilde"), (0xf2, "ograve"), (0xf3, "oacute"), (0xf4, "ocircumflex"),
    (0xf5, "otilde"), (0xf6, "odieresis"), (0xf7, "divide"), (0xf8, "oslash"), (0xf9, "ugrave"),
    (0xfa, "uacute"), (0xfb, "ucircumflex"), (0xfc, "udieresis"), (0xfd, "yacute"),
    (0xfe, "thorn"), (0xff, "ydieresis"),
];

/// The glyphs of the standard Latin character set with their codes in
/// StandardEncoding, `-1` for a glyph that the encoding leaves out.
pub const STANDARD_GLYPHS: [(i64, &'static str); 229] = [
    (32, "space"), (33, "exclam"), (34, "quotedbl"), (35, "numbersign"), (36, "dollar"),
    (37, "percent"), (38, "ampersand"), (39, "quoteright"), (40, "parenleft"),
    (41, "parenright"), (42, "asterisk"), (43, "plus"), (44, "comma"), (45, "hyphen"),
    (46, "period"), (47, "slash"), (48, "zero"), (49, "one"), (50, "two"), (51, "three"),
    (52, "four"), (53, "five"), (54, "six"), (55, "seven"), (56, "eight"), (57, "nine"),
    (58, "colon"), (59, "semicolon"), (60, "less"), (61, "equal"), (62, "greater"),
    (63, "question"), (64, "at"), (65, "A"), (66, "B"), (67, "C"), (68, "D"), (69, "E"),
    (70, "F"), (71, "G"), (72, "H"), (73, "I"), (74, "J"), (75, "K"), (76, "L"), (77, "M"),
    (78, "N"), (79, "O"), (80, "P"), (81, "Q"), (82, "R"), (83, "S"), (84, "T"), (85, "U"),
    (86, "V"), (87, "W"), (88, "X"), (89, "Y"), (90, "Z"), (91, "bracketleft"),
    (92, "backslash"), (93, "bracketright"), (94, "asciicircum"), (95, "underscore"),
    (96, "quoteleft"), (97, "a"), (98, "b"), (99, "c"), (100, "d"), (101, "e"), (102, "f"),
    (103, "g"), (104, "h"), (105, "i"), (106, "j"), (107, "k"), (108, "l"), (109, "m"),
    (110, "n"), (111, "o"), (112, "p"), (113, "q"), (114, "r"), (115, "s"), (116, "t"),
    (117, "u"), (118, "v"), (119, "w"), (120, "x"), (121, "y"), (122, "z"), (123, "braceleft"),
    (124, "bar"), (125, "braceright"), (126, "asciitilde"), (161, "exclamdown"), (162, "cent"),
    (163, "sterling"), (164, "fraction"), (165, "yen"), (166, "florin"), (167, "section"),
    (168, "currency"), (169, "quotesingle"), (170, "quotedblleft"), (171, "guillemotleft"),
    (172, "guilsinglleft"), (173, "guilsinglright"), (174, "fi"), (175, "fl"), (177, "endash"),
    (178, "dagger"), (179, "daggerdbl"), (180, "periodcentered"), (182, "paragraph"),
    (183, "bullet"), (184, "quotesinglbase"), (185, "quotedblbase"), (186, "quotedblright"),
    (187, "guillemotright"), (188, "ellipsis"), (189, "perthousand"), (191, "questiondown"),
    (193, "grave"), (194, "acute"), (195, "circumflex"), (196, "tilde"), (197, "macron"),
    (198, "breve"), (199, "dotaccent"), (200, "dieresis"), (202, "ring"), (203, "cedilla"),
    (205, "hungarumlaut"), (206, "ogonek"), (207, "caron"), (208, "emdash"), (225, "AE"),
    (227, "ordfeminine"), (232, "Lslash"), (233, "Oslash"), (234, "OE"), (235, "ordmasculine"),
    (241, "ae"), (245, "dotlessi"), (248, "lslash"), (249, "oslash"), (250, "oe"),
    (251, "germandbls"), (-1, "Aacute"), (-1, "Acircumflex"), (-1, "Adieresis"), (-1, "Agrave"),
    (-1, "Aring"), (-1, "Atilde"), (-1, "Ccedilla"), (-1, "Eacute"), (-1, "Ecircumflex"),
    (-1, "Edieresis"), (-1, "Egrave"), (-1, "Eth"), (-1, "Euro"), (-1, "Iacute"),
    (-1, "Icircumflex"), (-1, "Idieresis"), (-1, "Igrave"), (-1, "Ntilde"), (-1, "Oacute"),
    (-1, "Ocircumflex"), (-1, "Odieresis"), (-1, "Ograve"), (-1, "Otilde"), (-1, "Scaron"),
    (-1, "Thorn"), (-1, "Uacute"), (-1, "Ucircumflex"), (-1, "Udieresis"), (-1, "Ugrave"),
    (-1, "Yacute"), (-1, "Ydieresis"), (-1, "Zcaron"), (-1, "aacute"), (-1, "acircumflex"),
    (-1, "adieresis"), (-1, "agrave"), (-1, "aring"), (-1, "atilde"), (-1, "brokenbar"),
    (-1, "ccedilla"), (-1, "copyright"), (-1, "degree"), (-1, "divide"), (-1, "eacute"),
    (-1, "ecircumflex"), (-1, "edieresis"), (-1, "egrave"), (-1, "eth"), (-1, "iacute"),
    (-1, "icircumflex"), (-1, "idieresis"), (-1, "igrave"), (-1, "logicalnot"), (-1, "minus"),
    (-1, "mu"), (-1, "multiply"), (-1, "ntilde"), (-1, "oacute"), (-1, "ocircumflex"),
    (-1, "odieresis"), (-1, "ograve"), (-1, "onehalf"), (-1, "onequarter"), (-1, "onesuperior"),
    (-1, "otilde"), (-1, "plusminus"), (-1, "registered"), (-1, "scaron"), (-1, "thorn"),
    (-1, "threequarters"), (-1, "threesuperior"), (-1, "trademark"), (-1, "twosuperior"),
    (-1, "uacute"), (-1, "ucircumflex"), (-1, "udieresis"), (-1, "ugrave"), (-1, "yacute"),
    (-1, "ydieresis"), (-1, "zcaron"),
];

/// The advance widths of Helvetica for the codes 32 to 126 of StandardEncoding:
/// code, width and glyph name.
pub const HELVETICA_WIDTHS: [(i64, i64, &'static str); 95] = [
    (32, 278, "space"), (33, 278, "exclam"), (34, 355, "quotedbl"), (35, 556, "numbersign"),
    (36, 556, "dollar"), (37, 889, "percent"), (38, 667, "ampersand"), (39, 222, "quoteright"),
    (40, 333, "parenleft"), (41, 333, "parenright"), (42, 389, "asterisk"), (43, 584, "plus"),
    (44, 278, "comma"), (45, 333, "hyphen"), (46, 278, "period"), (47, 278, "slash"),
    (48, 556, "zero"), (49, 556, "one"), (50, 556, "two"), (51, 556, "three"),
    (52, 556, "four"), (53, 556, "five"), (54, 556, "six"), (55, 556, "seven"),
    (56, 556, "eight"), (57, 556, "nine"), (58, 278, "colon"), (59, 278, "semicolon"),
    (60, 584, "less"), (61, 584, "equal"), (62, 584, "greater"), (63, 556, "question"),
    (64, 1015, "at"), (65, 667, "A"), (66, 667, "B"), (67, 722, "C"), (68, 722, "D"),
    (69, 667, "E"), (70, 611, "F"), (71, 778, "G"), (72, 722, "H"), (73, 278, "I"),
    (74, 500, "J"), (75, 667, "K"), (76, 556, "L"), (77, 833, "M"), (78, 722, "N"),
    (79, 778, "O"), (80, 667, "P"), (81, 778, "Q"), (82, 722, "R"), (83, 667, "S"),
    (84, 611, "T"), (85, 722, "U"), (86, 667, "V"), (87, 944, "W"), (88, 667, "X"),
    (89, 667, "Y"), (90, 611, "Z"), (91, 278, "bracketleft"), (92, 278, "backslash"),
    (93, 278, "bracketright"), (94, 469, "asciicircum"), (95, 556, "underscore"),
    (96, 222, "quoteleft"), (97, 556, "a"), (98, 556, "b"), (99, 500, "c"), (100, 556, "d"),
    (101, 556, "e"), (102, 278, "f"), (103, 556, "g"), (104, 556, "h"), (105, 222, "i"),
    (106, 222, "j"), (107, 500, "k"), (108, 222, "l"), (109, 833, "m"), (110, 556, "n"),
    (111, 556, "o"), (112, 556, "p"), (113, 556, "q"), (114, 333, "r"), (115, 500, "s"),
    (116, 278, "t"), (117, 556, "u"), (118, 500, "v"), (119, 722, "w"), (120, 500, "x"),
    (121, 500, "y"), (122, 500, "z"), (123, 334, "braceleft"), (124, 260, "bar"),
    (125, 334, "braceright"), (126, 584, "asciitilde"),
];

} // verus!
