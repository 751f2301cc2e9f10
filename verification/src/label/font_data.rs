//! The letters of the strip: ASCII, Russian, and a few signs.
use vstd::prelude::*;

verus! {

/// The size of a letter, in pixels.
pub const GLYPH_WIDTH: usize = 10;

pub const GLYPH_HEIGHT: usize = 20;

/// The bytes of a row of pixels; the leftmost pixel is the highest bit of the first one.
pub const ROW_BYTES: usize = 2;

/// How many letters there are.
pub const GLYPH_COUNT: usize = 166;

/// The letters in the order of their codes. A letter is seven rows of five dots, from the top and
/// from the left, the first dot in the highest of thirty-five bits.
pub const GLYPHS: [(u32, u64); 166] = [
    (0x0020, 0x000000000),
    (0x0021, 0x108421004),
    (0x0022, 0x294a00000),
    (0x0023, 0x295f57d4a),
    (0x0024, 0x11f4717c4),
    (0x0025, 0x632222263),
    (0x0026, 0x22944564d),
    (0x0027, 0x308800000),
    (0x0028, 0x088842082),
    (0x0029, 0x208210888),
    (0x002a, 0x12aefbaa4),
    (0x002b, 0x0084f9080),
    (0x002c, 0x000003088),
    (0x002d, 0x000070000),
    (0x002e, 0x00000018c),
    (0x002f, 0x002222200),
    (0x0030, 0x3a33ae62e),
    (0x0031, 0x11842108e),
    (0x0032, 0x3a211111f),
    (0x0033, 0x7c441062e),
    (0x0034, 0x08ca97c42),
    (0x0035, 0x7e1e0862e),
    (0x0036, 0x1910f462e),
    (0x0037, 0x7c2222108),
    (0x0038, 0x3a317462e),
    (0x0039, 0x3a317844c),
    (0x003a, 0x018c03180),
    (0x003b, 0x018c03088),
    (0x003c, 0x088882082),
    (0x003d, 0x001f07c00),
    (0x003e, 0x208208888),
    (0x003f, 0x3a2111004),
    (0x0040, 0x3a35bda0f),
    (0x0041, 0x3a318fe31),
    (0x0042, 0x7a31f463e),
    (0x0043, 0x3a308422e),
    (0x0044, 0x7a318c63e),
    (0x0045, 0x7e10f421f),
    (0x0046, 0x7e10f4210),
    (0x0047, 0x3a30bc62f),
    (0x0048, 0x4631fc631),
    (0x0049, 0x38842108e),
    (0x004a, 0x1c4210a4c),
    (0x004b, 0x4654c5251),
    (0x004c, 0x42108421f),
    (0x004d, 0x4775ac631),
    (0x004e, 0x4639ace31),
    (0x004f, 0x3a318c62e),
    (0x0050, 0x7a31f4210),
    (0x0051, 0x3a318d64d),
    (0x0052, 0x7a31f5251),
    (0x0053, 0x3e107043e),
    (0x0054, 0x7c8421084),
    (0x0055, 0x46318c62e),
    (0x0056, 0x46318c544),
    (0x0057, 0x4631ad6aa),
    (0x0058, 0x462a22a31),
    (0x0059, 0x463151084),
    (0x005a, 0x7c222221f),
    (0x005b, 0x39084210e),
    (0x005c, 0x020820820),
    (0x005d, 0x38421084e),
    (0x005e, 0x115100000),
    (0x005f, 0x00000001f),
    (0x0060, 0x208200000),
    (0x0061, 0x000e0be2f),
    (0x0062, 0x4216cc63e),
    (0x0063, 0x000e8422e),
    (0x0064, 0x042d9c62f),
    (0x0065, 0x000e8fe0e),
    (0x0066, 0x1928e2108),
    (0x0067, 0x01f18bc2e),
    (0x0068, 0x4216cc631),
    (0x0069, 0x100c2108e),
    (0x006a, 0x080610a4c),
    (0x006b, 0x4212a6292),
    (0x006c, 0x30842108e),
    (0x006d, 0x001aad631),
    (0x006e, 0x0016cc631),
    (0x006f, 0x000e8c62e),
    (0x0070, 0x001e8fa10),
    (0x0071, 0x000d9bc21),
    (0x0072, 0x0016cc210),
    (0x0073, 0x000e8383e),
    (0x0074, 0x211c42126),
    (0x0075, 0x00118c66d),
    (0x0076, 0x00118c544),
    (0x0077, 0x00118d6aa),
    (0x0078, 0x001151151),
    (0x0079, 0x00118bc2e),
    (0x007a, 0x001f1111f),
    (0x007b, 0x088441082),
    (0x007c, 0x108421084),
    (0x007d, 0x208411088),
    (0x007e, 0x0008a8800),
    (0x00ab, 0x00aaa28a0),
    (0x00bb, 0x028a2aa80),
    (0x0401, 0x281f87a1f),
    (0x0410, 0x3a318fe31),
    (0x0411, 0x7e10f463e),
    (0x0412, 0x7a31f463e),
    (0x0413, 0x7e3084210),
    (0x0414, 0x194a52bf1),
    (0x0415, 0x7e10f421f),
    (0x0416, 0x56ae23ab5),
    (0x0417, 0x3a213062e),
    (0x0418, 0x4633ae631),
    (0x0419, 0x12319d731),
    (0x041a, 0x4654c5251),
    (0x041b, 0x1d294a531),
    (0x041c, 0x4775ac631),
    (0x041d, 0x4631fc631),
    (0x041e, 0x3a318c62e),
    (0x041f, 0x7e318c631),
    (0x0420, 0x7a31f4210),
    (0x0421, 0x3a308422e),
    (0x0422, 0x7c8421084),
    (0x0423, 0x46317862e),
    (0x0424, 0x3ab5ab884),
    (0x0425, 0x462a22a31),
    (0x0426, 0x4a5294be1),
    (0x0427, 0x463178421),
    (0x0428, 0x56b5ad6bf),
    (0x0429, 0x56b5ad7e1),
    (0x042a, 0x61087252e),
    (0x042b, 0x4631cd6b9),
    (0x042c, 0x4210f463e),
    (0x042d, 0x3a213862e),
    (0x042e, 0x4ab5ed6b2),
    (0x042f, 0x3e3179531),
    (0x0430, 0x000e0be2f),
    (0x0431, 0x0d90f462e),
    (0x0432, 0x001e8fa3e),
    (0x0433, 0x001f8c210),
    (0x0434, 0x000e52bf1),
    (0x0435, 0x000e8fe0e),
    (0x0436, 0x0015abab5),
    (0x0437, 0x000e89a2e),
    (0x0438, 0x00119d731),
    (0x0439, 0x28919d731),
    (0x043a, 0x0012a6292),
    (0x043b, 0x00074a531),
    (0x043c, 0x0011dd631),
    (0x043d, 0x00118fe31),
    (0x043e, 0x000e8c62e),
    (0x043f, 0x001f8c631),
    (0x0440, 0x001e8fa10),
    (0x0441, 0x000e8422e),
    (0x0442, 0x001f21084),
    (0x0443, 0x00118bc2e),
    (0x0444, 0x008ead5c4),
    (0x0445, 0x001151151),
    (0x0446, 0x001294be1),
    (0x0447, 0x00118bc21),
    (0x0448, 0x0015ad6bf),
    (0x0449, 0x0015ad7e1),
    (0x044a, 0x00184392e),
    (0x044b, 0x00118e6b9),
    (0x044c, 0x001087a3e),
    (0x044d, 0x000e89e2e),
    (0x044e, 0x0012af6b2),
    (0x044f, 0x000f8bd31),
    (0x0451, 0x280e8fe0e),
    (0x2013, 0x0000f8000),
    (0x2014, 0x0000f8000),
    (0x2116, 0x4a5bd5af2),
];

} // verus!
