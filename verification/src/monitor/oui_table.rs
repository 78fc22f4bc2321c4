//! The table of organizationally unique identifiers.
use vstd::prelude::*;

verus! {

/// Known organizationally unique identifiers, each with the index of its vendor.
pub const OUI_TABLE: [(u32, u8); 1361] = [
    (0x000393, 0), (0x000502, 0), (0x000A27, 0), (0x000A95, 0), (0x000D93, 0), (0x0010FA, 0),
    (0x001124, 0), (0x001451, 0), (0x0016CB, 0), (0x0017F2, 0), (0x0019E3, 0), (0x001B63, 0),
    (0x001C46, 0), (0x001D4F, 0), (0x001E52, 0), (0x001F5B, 0), (0x001FE1, 0), (0x0021E9, 0),
    (0x002241, 0), (0x002312, 0), (0x002332, 0), (0x00236C, 0), (0x002436, 0), (0x002500, 0),
    (0x00254B, 0), (0x002608, 0), (0x00264A, 0), (0x0026B0, 0), (0x0026BB, 0), (0x003EE1, 0),
    (0x0050E4, 0), (0x006171, 0), (0x008865, 0), (0x00A040, 0), (0x00C610, 0), (0x00F4B9, 0),
    (0x040CCE, 0), (0x041552, 0), (0x041E64, 0), (0x042665, 0), (0x044B2B, 0), (0x0452F3, 0),
    (0x045453, 0), (0x0469F8, 0), (0x04D3CF, 0), (0x04DB56, 0), (0x04E536, 0), (0x04F13E, 0),
    (0x04F7E4, 0), (0x080007, 0), (0x086698, 0), (0x087045, 0), (0x087402, 0), (0x08E689, 0),
    (0x08F4AB, 0), (0x0C1539, 0), (0x0C3021, 0), (0x0C3E9F, 0), (0x0C4DE9, 0), (0x0C5101, 0),
    (0x0C74C2, 0), (0x0C771A, 0), (0x0CB319, 0), (0x0CBCAC, 0), (0x0CD746, 0), (0x101C0C, 0),
    (0x1040F3, 0), (0x10417F, 0), (0x1093E9, 0), (0x109ADD, 0), (0x10DDB1, 0), (0x14109F, 0),
    (0x14205E, 0), (0x147DDA, 0), (0x1499E2, 0), (0x14BD61, 0), (0x182032, 0), (0x183451, 0),
    (0x185E0F, 0), (0x186590, 0), (0x189EFC, 0), (0x18AF61, 0), (0x18E728, 0), (0x18EE69, 0),
    (0x18F643, 0), (0x1C1A6E, 0), (0x1C5CF2, 0), (0x1C9148, 0), (0x1C9E46, 0), (0x1CABCE, 0),
    (0x203C8F, 0), (0x20768F, 0), (0x2078F0, 0), (0x209BCD, 0), (0x20A2E4, 0), (0x20C9D0, 0),
    (0x20EE28, 0), (0x24240E, 0), (0x245BFB, 0), (0x24A074, 0), (0x24A2E1, 0), (0x24AB81, 0),
    (0x24E314, 0), (0x24F094, 0), (0x24F677, 0), (0x280B5C, 0), (0x283737, 0), (0x285AEB, 0),
    (0x286ABA, 0), (0x28A02B, 0), (0x28CFE9, 0), (0x28E02C, 0), (0x28E14C, 0), (0x28E7CF, 0),
    (0x28ED6A, 0), (0x28F076, 0), (0x2C1F23, 0), (0x2C3361, 0), (0x2CBE08, 0), (0x2CF0EE, 0),
    (0x30074D, 0), (0x3010E4, 0), (0x3035AD, 0), (0x305747, 0), (0x30636B, 0), (0x307C5E, 0),
    (0x3090AB, 0), (0x30D9D9, 0), (0x30F7C5, 0), (0x3408BC, 0), (0x341298, 0), (0x34159E, 0),
    (0x34363B, 0), (0x345180, 0), (0x347C25, 0), (0x34A395, 0), (0x34AB37, 0), (0x34C059, 0),
    (0x34E2FD, 0), (0x380F4A, 0), (0x38484C, 0), (0x3866F0, 0), (0x3871DE, 0), (0x38892C, 0),
    (0x38B54D, 0), (0x38C986, 0), (0x38CADA, 0), (0x38F9D3, 0), (0x3C0754, 0), (0x3C15C2, 0),
    (0x3C22FB, 0), (0x3CD0F8, 0), (0x3CE072, 0), (0x402619, 0), (0x403004, 0), (0x40331A, 0),
    (0x403CFC, 0), (0x404D7F, 0), (0x406C8F, 0), (0x40831D, 0), (0x4098AD, 0), (0x409C28, 0),
    (0x40A6D9, 0), (0x40B4CD, 0), (0x40BCA5, 0), (0x40D32D, 0), (0x440010, 0), (0x442A60, 0),
    (0x444C0C, 0), (0x448500, 0), (0x449160, 0), (0x44D884, 0), (0x44FB42, 0), (0x483B38, 0),
    (0x48437C, 0), (0x484BAA, 0), (0x48605F, 0), (0x48746E, 0), (0x48A195, 0), (0x48D705, 0),
    (0x48E9F1, 0), (0x4C3275, 0), (0x4C57CA, 0), (0x4C74BF, 0), (0x4C8D79, 0), (0x4CB199, 0),
    (0x503237, 0), (0x50BC96, 0), (0x50EAD6, 0), (0x542696, 0), (0x544E90, 0), (0x54724F, 0),
    (0x54833A, 0), (0x549963, 0), (0x54AE27, 0), (0x54E43A, 0), (0x54EA86, 0), (0x581FAA, 0),
    (0x58404E, 0), (0x5855CA, 0), (0x58B035, 0), (0x58E28F, 0), (0x5C8D4E, 0), (0x5C95AE, 0),
    (0x5C969D, 0), (0x5C97F3, 0), (0x5CF938, 0), (0x600308, 0), (0x6030D4, 0), (0x60334B, 0),
    (0x606944, 0), (0x608C4A, 0), (0x609217, 0), (0x60C547, 0), (0x60D9C7, 0), (0x60F81D, 0),
    (0x60FACD, 0), (0x60FB42, 0), (0x64200C, 0), (0x647033, 0), (0x6476BA, 0), (0x649ABE, 0),
    (0x64A5C3, 0), (0x64B9E8, 0), (0x64C753, 0), (0x680927, 0), (0x685B35, 0), (0x68644B, 0),
    (0x68967B, 0), (0x68A86D, 0), (0x68AB1E, 0), (0x68AE20, 0), (0x68D93C, 0), (0x68DBCA, 0),
    (0x6C3E6D, 0), (0x6C4008, 0), (0x6C4D73, 0), (0x6C709F, 0), (0x6C72E7, 0), (0x6C8D77, 0),
    (0x6C96CF, 0), (0x6C9958, 0), (0x6CB311, 0), (0x701124, 0), (0x7014A6, 0), (0x703EAC, 0),
    (0x705681, 0), (0x70700D, 0), (0x7073CB, 0), (0x70A2B3, 0), (0x70CD60, 0), (0x70DEE2, 0),
    (0x70E284, 0), (0x70EC56, 0), (0x741B2D, 0), (0x748114, 0), (0x748D08, 0), (0x74E1B6, 0),
    (0x74E2F5, 0), (0x7831C1, 0), (0x784F43, 0), (0x7867D7, 0), (0x787B8A, 0), (0x787E61, 0),
    (0x78886D, 0), (0x789F70, 0), (0x78A873, 0), (0x78CA39, 0), (0x78FD94, 0), (0x7C0191, 0),
    (0x7C04D0, 0), (0x7C5049, 0), (0x7C6D62, 0), (0x7CFADF, 0), (0x80006E, 0), (0x804971, 0),
    (0x80929F, 0), (0x80BE05, 0), (0x80D09B, 0), (0x80E650, 0), (0x80EA96, 0), (0x8425DB, 0),
    (0x843835, 0), (0x844BF5, 0), (0x84788B, 0), (0x848506, 0), (0x848E0C, 0), (0x849767, 0),
    (0x84A134, 0), (0x84B153, 0), (0x84FCAC, 0), (0x881908, 0), (0x885395, 0), (0x8863DF, 0),
    (0x88665A, 0), (0x88AEFA, 0), (0x88CB87, 0), (0x88E87F, 0), (0x8C2DAA, 0), (0x8C5877, 0),
    (0x8C7B9D, 0), (0x8C8590, 0), (0x8CF5A3, 0), (0x9027E4, 0), (0x907240, 0), (0x90840D, 0),
    (0x90B0ED, 0), (0x90B21F, 0), (0x90C1C6, 0), (0x90DD5D, 0), (0x90E2BA, 0), (0x90FD61, 0),
    (0x941625, 0), (0x949426, 0), (0x94E96A, 0), (0x9801A7, 0), (0x9803D8, 0), (0x9810E8, 0),
    (0x985AEB, 0), (0x989E63, 0), (0x98B8E3, 0), (0x98D6BB, 0), (0x98E0D9, 0), (0x98F0AB, 0),
    (0x9C04EB, 0), (0x9C207B, 0), (0x9C293F, 0), (0x9C35EB, 0), (0x9C4FDA, 0), (0x9C84BF, 0),
    (0x9CF387, 0), (0x9CF48E, 0), (0xA01828, 0), (0xA03BE3, 0), (0xA0999B, 0), (0xA0C589, 0),
    (0xA0EDCD, 0), (0xA43135, 0), (0xA45E60, 0), (0xA46706, 0), (0xA483E7, 0), (0xA4B197, 0),
    (0xA4C361, 0), (0xA4D1D2, 0), (0xA82066, 0), (0xA8515B, 0), (0xA85B78, 0), (0xA860B6, 0),
    (0xA8667F, 0), (0xA886DD, 0), (0xA88808, 0), (0xA8968A, 0), (0xA8BBCC, 0), (0xA8FAD8, 0),
    (0xAC1F74, 0), (0xAC293A, 0), (0xAC3C0B, 0), (0xAC61EA, 0), (0xAC7F3E, 0), (0xAC87A3, 0),
    (0xACC1EE, 0), (0xACCF5C, 0), (0xACDE48, 0), (0xACE342, 0), (0xACFDCE, 0), (0xB019C6, 0),
    (0xB03495, 0), (0xB0481A, 0), (0xB065BD, 0), (0xB0702D, 0), (0xB09FBA, 0), (0xB418D1, 0),
    (0xB4430D, 0), (0xB49CDF, 0), (0xB4F0AB, 0), (0xB8098A, 0), (0xB817C2, 0), (0xB844D9, 0),
    (0xB853AC, 0), (0xB8782E, 0), (0xB88D12, 0), (0xB8B2F8, 0), (0xB8BBAF, 0), (0xB8C75D, 0),
    (0xB8E856, 0), (0xB8F6B1, 0), (0xB8FF61, 0), (0xBC3BAF, 0), (0xBC52B7, 0), (0xBC5436, 0),
    (0xBC6778, 0), (0xBC926B, 0), (0xBCA920, 0), (0xBCE143, 0), (0xBCEE7B, 0), (0xBCFEF5, 0),
    (0xC01ADA, 0), (0xC0847D, 0), (0xC09F42, 0), (0xC0A53E, 0), (0xC0B658, 0), (0xC0CCF8, 0),
    (0xC0D012, 0), (0xC0E862, 0), (0xC0F2FB, 0), (0xC42C03, 0), (0xC4B301, 0), (0xC81EE7, 0),
    (0xC82A14, 0), (0xC8334B, 0), (0xC83C85, 0), (0xC869CD, 0), (0xC88550, 0), (0xC8B5B7, 0),
    (0xC8D083, 0), (0xC8E0EB, 0), (0xC8F650, 0), (0xCC088D, 0), (0xCC20E8, 0), (0xCC25EF, 0),
    (0xCC29F5, 0), (0xCC4463, 0), (0xCC785F, 0), (0xCCC760, 0), (0xD0034B, 0), (0xD023DB, 0),
    (0xD02598, 0), (0xD03311, 0), (0xD04F7E, 0), (0xD0817A, 0), (0xD0A637, 0), (0xD0C5F3, 0),
    (0xD4619D, 0), (0xD4909C, 0), (0xD4A33D, 0), (0xD4DC09, 0), (0xD4F46F, 0), (0xD8004D, 0),
    (0xD81C79, 0), (0xD83062, 0), (0xD88F76, 0), (0xD89695, 0), (0xD89E3F, 0), (0xD8A25E, 0),
    (0xD8BB2C, 0), (0xD8CF9C, 0), (0xD8D1CB, 0), (0xDC0C5C, 0), (0xDC2B2A, 0), (0xDC2B61, 0),
    (0xDC3714, 0), (0xDC415F, 0), (0xDC5285, 0), (0xDCA904, 0), (0xDCB058, 0), (0xDCDD89, 0),
    (0xE0338E, 0), (0xE05F45, 0), (0xE0680A, 0), (0xE0ACCB, 0), (0xE0B9BA, 0), (0xE0C767, 0),
    (0xE0C97A, 0), (0xE0CBEE, 0), (0xE0F5C6, 0), (0xE0F847, 0), (0xE425E7, 0), (0xE48B7F, 0),
    (0xE498D6, 0), (0xE49A79, 0), (0xE4C63D, 0), (0xE4CE8F, 0), (0xE4E4AB, 0), (0xEC3586, 0),
    (0xEC852F, 0), (0xECAD9E, 0), (0xECDDA9, 0), (0xF01898, 0), (0xF02475, 0), (0xF07960, 0),
    (0xF0989D, 0), (0xF099BF, 0), (0xF0B479, 0), (0xF0C1F1, 0), (0xF0C371, 0), (0xF0D1A9, 0),
    (0xF0DBE2, 0), (0xF0DCA0, 0), (0xF0F61C, 0), (0xF40F24, 0), (0xF41BA1, 0), (0xF431C3, 0),
    (0xF437B7, 0), (0xF45C89, 0), (0xF4F15A, 0), (0xF4F951, 0), (0xF81EDF, 0), (0xF82793, 0),
    (0xF83880, 0), (0xF84ABF, 0), (0xF86214, 0), (0xF86F63, 0), (0xF887F1, 0), (0xF89A8F, 0),
    (0xF8E079, 0), (0xF8FFC2, 0), (0xFC183C, 0), (0xFC252F, 0), (0xFC2A9C, 0), (0xFCB467, 0),
    (0xFCD848, 0), (0xFCE998, 0), (0x0000F0, 1), (0x000278, 1), (0x0007AB, 1), (0x000918, 1),
    (0x000D44, 1), (0x000D6F, 1), (0x000DE0, 1), (0x001247, 1), (0x0012FB, 1), (0x001377, 1),
    (0x001599, 1), (0x0015B9, 1), (0x001632, 1), (0x00166C, 1), (0x0016DB, 1), (0x0017C9, 1),
    (0x0017D5, 1), (0x0018AF, 1), (0x001901, 1), (0x001A8A, 1), (0x001BD7, 1), (0x001C43, 1),
    (0x001D25, 1), (0x001DF6, 1), (0x001E7D, 1), (0x001FAA, 1), (0x002119, 1), (0x00214C, 1),
    (0x0021D1, 1), (0x0021D2, 1), (0x002339, 1), (0x002347, 1), (0x0023C3, 1), (0x0023D7, 1),
    (0x002454, 1), (0x002491, 1), (0x0024E8, 1), (0x002567, 1), (0x002637, 1), (0x00265D, 1),
    (0x00E064, 1), (0x0418D6, 1), (0x04FE8D, 1), (0x0808C2, 1), (0x08373D, 1), (0x08D46A, 1),
    (0x08EE8B, 1), (0x08FC88, 1), (0x0C1420, 1), (0x0C8FDF, 1), (0x103047, 1), (0x107719, 1),
    (0x10D542, 1), (0x1432D1, 1), (0x1449E0, 1), (0x14B484, 1), (0x18227E, 1), (0x183B7E, 1),
    (0x1867B0, 1), (0x188331, 1), (0x1C5A3E, 1), (0x1C66AA, 1), (0x2013E0, 1), (0x205531, 1),
    (0x244B03, 1), (0x247189, 1), (0x24DBAC, 1), (0x28987B, 1), (0x28BAB4, 1), (0x2C0E3D, 1),
    (0x2C4401, 1), (0x30CDA7, 1), (0x3423BA, 1), (0x34C3AC, 1), (0x380146, 1), (0x380A94, 1),
    (0x38AA3C, 1), (0x3C6200, 1), (0x3C8BFE, 1), (0x400E85, 1), (0x444E1A, 1), (0x44F459, 1),
    (0x4844F7, 1), (0x4C3C16, 1), (0x5056A8, 1), (0x508569, 1), (0x50C8E5, 1), (0x54880E, 1),
    (0x5492BE, 1), (0x58C38B, 1), (0x5C0A5B, 1), (0x5CE8EB, 1), (0x606C66, 1), (0x60AF6D, 1),
    (0x641CB0, 1), (0x647791, 1), (0x64B853, 1), (0x68EBAE, 1), (0x6C2F2C, 1), (0x6C8336, 1),
    (0x702AD5, 1), (0x70F395, 1), (0x7445CE, 1), (0x781FDB, 1), (0x7825AD, 1), (0x7840E4, 1),
    (0x78471D, 1), (0x78521A, 1), (0x78AB60, 1), (0x7C6193, 1), (0x8018A7, 1), (0x805719, 1),
    (0x842519, 1), (0x845181, 1), (0x8455A5, 1), (0x88308A, 1), (0x88329B, 1), (0x8C7712, 1),
    (0x90187C, 1), (0x90F1AA, 1), (0x94350A, 1), (0x9463D1, 1), (0x94B10A, 1), (0x980CA5, 1),
    (0x9852B1, 1), (0x9C0298, 1), (0x9C3AFE, 1), (0xA00BBA, 1), (0xA0821F, 1), (0xA4307A, 1),
    (0xA470D6, 1), (0xA80600, 1), (0xA87C01, 1), (0xA8F274, 1), (0xAC3613, 1), (0xAC5F3E, 1),
    (0xB047BF, 1), (0xB0C4E7, 1), (0xB407F9, 1), (0xB479A7, 1), (0xB857D8, 1), (0xBC4486, 1),
    (0xBC72B7, 1), (0xBC8CCD, 1), (0xC09727, 1), (0xC44202, 1), (0xC4731E, 1), (0xC819F7, 1),
    (0xCC07AB, 1), (0xD0176A, 1), (0xD48839, 1), (0xD857EF, 1), (0xDC7144, 1), (0xE458E7, 1),
    (0xE47CF9, 1), (0xE4B021, 1), (0xE81132, 1), (0xE8508B, 1), (0xE8E5D6, 1), (0xEC107B, 1),
    (0xEC9BF3, 1), (0xF025B7, 1), (0xF05A09, 1), (0xF06BCA, 1), (0xF0EE10, 1), (0xF409D8, 1),
    (0xF47B5E, 1), (0xF8042E, 1), (0xF83F51, 1), (0xF8D0BD, 1), (0xFC0012, 1), (0xFCC233, 1),
    (0x001882, 2), (0x101279, 2), (0x1868CB, 2), (0x2857BE, 2), (0x3C1E04, 2), (0x4419B6, 2),
    (0x48EA63, 2), (0x5803FB, 2), (0x7446A0, 2), (0x849A40, 2), (0x988B5D, 2), (0xA41437, 2),
    (0xBC5451, 2), (0xC05627, 2), (0xD89685, 2), (0xE0508B, 2), (0x34BDC8, 2), (0x70B3D5, 2),
    (0xC42F90, 2), (0x40A0F8, 2), (0xDC5360, 2), (0x38AF29, 3), (0x4C11BF, 3), (0x9002A9, 3),
    (0xA0BD1D, 3), (0xB0411D, 3), (0xE0508C, 3), (0xF45EAB, 3), (0x3C8375, 3), (0x6C709B, 3),
    (0x702C1F, 3), (0x90C2C3, 3), (0xBC325F, 3), (0x3CE5A6, 3), (0x74B587, 3), (0x54C415, 3),
    (0xE4249C, 3), (0x00408C, 4), (0xACCC8E, 4), (0xB8A44F, 4), (0x001212, 5), (0x282C02, 5),
    (0x7C2F80, 5), (0xA4DA22, 5), (0x508A06, 5), (0x683E34, 5), (0xDC2919, 5), (0xE06290, 6),
    (0x001A94, 6), (0xEC71DB, 6), (0x5C0267, 6), (0x60A44C, 7), (0xECF451, 7), (0x001B67, 7),
    (0xEC7C02, 8), (0x3876CA, 8), (0xC0EAE4, 8), (0x001241, 9), (0x18D6C7, 9), (0xD052A8, 9),
    (0x001304, 10), (0x009EE8, 11), (0x0C1DAF, 11), (0x14F65A, 11), (0x185936, 11), (0x2082C0, 11),
    (0x286C07, 11), (0x3480B3, 11), (0x50642B, 11), (0x584498, 11), (0x640980, 11), (0x742344, 11),
    (0x7C49EB, 11), (0x88C397, 11), (0x9C99A0, 11), (0xACF7F3, 11), (0xC40BCB, 11), (0xD4970B, 11),
    (0xE446DA, 11), (0xF48E92, 11), (0x102CB6, 11), (0x2C6BF5, 11), (0x38539C, 11), (0x4C49E3, 11),
    (0x68DE3A, 11), (0x7811DC, 11), (0x8CBEBE, 11), (0xA086C6, 11), (0xBC25E0, 11), (0xDC5A14, 11),
    (0x04CF4B, 11), (0x0C9838, 11), (0x18F0E4, 11), (0x28D127, 11), (0x34CE00, 11), (0x3C9509, 11),
    (0x50EC50, 11), (0x5C0947, 11), (0x64CC22, 11), (0x7802F8, 11), (0x7CE54F, 11), (0x845CF3, 11),
    (0x8CDE52, 11), (0x9487E0, 11), (0x9C2EA1, 11), (0xA44519, 11), (0xB0E235, 11), (0xC46E7B, 11),
    (0xE4AAEA, 11), (0x04646D, 12), (0x14B968, 12), (0x24DF6A, 12), (0x482CA0, 12), (0x78C12C, 12),
    (0xA4EB42, 12), (0xC8B29B, 12), (0xE88D28, 12), (0x8C7A3D, 12), (0xC4B8B4, 12), (0x9809CF, 12),
    (0x508ACB, 12), (0xB0A86E, 12), (0x14686A, 13), (0x388B59, 13), (0x582A40, 13), (0x84DBAC, 13),
    (0xB41A3D, 13), (0xC808E9, 13), (0xE09971, 13), (0x54B121, 13), (0x9059AF, 13), (0xA09347, 14),
    (0xC0EEFB, 14), (0x702C2E, 14), (0x001E10, 15), (0x0425C5, 15), (0x104780, 15), (0x1CA85B, 15),
    (0x286ED4, 15), (0x404D8E, 15), (0x4846FB, 15), (0x548998, 15), (0x707B86, 15), (0x80B686, 15),
    (0x888603, 15), (0xAC853D, 15), (0xB41513, 15), (0xC88D83, 15), (0xE0191D, 15), (0xF8E71E, 15),
    (0x00E0FC, 15), (0x0819A6, 15), (0x084F0A, 15), (0x0C37DC, 15), (0x18DED7, 15), (0x249EAB, 15),
    (0x283152, 15), (0x34CD6D, 15), (0x3C4711, 15), (0x4455C4, 15), (0x48282F, 15), (0x4C5499, 15),
    (0x5439DF, 15), (0x5C0339, 15), (0x6416F0, 15), (0x70A8E3, 15), (0x74A063, 15), (0x8038BC, 15),
    (0x84A8E4, 15), (0x88CEFA, 15), (0x8C34FD, 15), (0x90671C, 15), (0x94772B, 15), (0x98FFD0, 15),
    (0xA0086F, 15), (0xA4999B, 15), (0xA8CA7B, 15), (0xAC4E91, 15), (0xB43052, 15), (0xC0A0BB, 15),
    (0xC4072F, 15), (0xCC96A0, 15), (0xD02DB5, 15), (0xD46EA0, 15), (0xDC080F, 15), (0xE4A8DF, 15),
    (0xE8088B, 15), (0xEC233D, 15), (0xF4559C, 15), (0xF86CE1, 15), (0x000A3A, 16), (0x001478, 16),
    (0x0019E0, 16), (0x001D0F, 16), (0x002127, 16), (0x0023CD, 16), (0x002586, 16), (0x14CC20, 16),
    (0x1C3BF3, 16), (0x30B5C2, 16), (0x50C7BF, 16), (0x60E327, 16), (0x704F57, 16), (0x7C8BCA, 16),
    (0x90F652, 16), (0xA0F3C1, 16), (0xB0487A, 16), (0xC025E9, 16), (0xD80D17, 16), (0xE894F6, 16),
    (0xF4EC38, 16), (0x3CE62E, 16), (0x54AF97, 16), (0x58D9D5, 16), (0x6C5AB0, 16), (0x7405A5, 16),
    (0x808F1D, 16), (0x98DAC4, 16), (0xAC84C6, 16), (0xB4B024, 16), (0xC46E1F, 16), (0xE4C32A, 16),
    (0x18A6F7, 16), (0x200543, 16), (0x20DCBA, 16), (0x388345, 16), (0x44D9E7, 16), (0x50D4F7, 16),
    (0x54E032, 16), (0x7828CA, 16), (0x00B00C, 17), (0x14CF92, 17), (0x502B73, 17), (0xC83A35, 17),
    (0xD83214, 17), (0x0495E6, 17), (0xCC3429, 17), (0x00E04C, 18), (0xD46E0E, 18), (0x78A183, 18),
    (0x74888B, 18), (0x00507F, 19), (0x001DAA, 19), (0x000C42, 20), (0x488AD2, 20), (0x64D154, 20),
    (0xB869F4, 20), (0xCC2DE0, 20), (0xDC2C6E, 20), (0xE48D8C, 20), (0xF492BF, 21), (0x7483C2, 21),
    (0x24A43C, 21), (0x60E32B, 21), (0x784558, 21), (0x802AA8, 21), (0xB4FBE4, 21), (0xDC9FDB, 21),
    (0xE063DA, 21), (0x00000C, 22), (0x000142, 22), (0x000143, 22), (0x000196, 22), (0x0001C7, 22),
    (0x0001C9, 22), (0x000216, 22), (0x000217, 22), (0x00024A, 22), (0x00027D, 22), (0x0002B9, 22),
    (0x0002BA, 22), (0x0002FD, 22), (0x000331, 22), (0x00036B, 22), (0x00039F, 22), (0x0003E3, 22),
    (0x000427, 22), (0x00044D, 22), (0x00046D, 22), (0x00049A, 22), (0x0004C0, 22), (0x0004DD, 22),
    (0x000500, 22), (0x00180A, 23), (0x00246C, 23), (0x0C8525, 23), (0x24DEC6, 23), (0x34FCB9, 23),
    (0x9C1C12, 23), (0xAC17C8, 23), (0x000B86, 24), (0x001A1E, 24), (0x40E3D6, 24), (0x6C9CED, 24),
    (0x94B40F, 24), (0xAC1C2D, 24), (0xB041A4, 24), (0x001F64, 25), (0x18B905, 25), (0x58696C, 25),
    (0x702287, 25), (0xA480B6, 25), (0xF4B381, 25), (0x00095B, 26), (0x000FB5, 26), (0x00146C, 26),
    (0x00184D, 26), (0x001E2A, 26), (0x001F33, 26), (0x0024B2, 26), (0x04A151, 26), (0x20E52A, 26),
    (0x841B5E, 26), (0x9C3DCF, 26), (0xA00460, 26), (0xB07FB9, 26), (0xC0FFD4, 26), (0xE0469A, 26),
    (0x00055D, 27), (0x000D88, 27), (0x000F3D, 27), (0x001195, 27), (0x001346, 27), (0x0015E9, 27),
    (0x00179A, 27), (0x00195B, 27), (0x1C7EE5, 27), (0x28107B, 27), (0x78542E, 27), (0xB0C554, 27),
    (0xC0A000, 27), (0x204E7F, 28), (0x6038E0, 28), (0x84DB7A, 28), (0x00059E, 29), (0x001349, 29),
    (0x0019CB, 29), (0x404A03, 29), (0x000C43, 30), (0x001E8F, 30), (0x247F20, 30), (0x40313C, 30),
    (0xA021B7, 30), (0xE4E749, 30), (0xF87B8C, 30), (0x001A79, 31), (0x18622C, 31), (0x20F41B, 31),
    (0xA41588, 31), (0xC0A86E, 31), (0x0019A8, 32), (0x54625A, 32), (0x7488B8, 32), (0xE01954, 32),
    (0x68352A, 32), (0x001E73, 33), (0x002293, 33), (0x1844E6, 33), (0x28D244, 33), (0x68D1BA, 33),
    (0x702E22, 33), (0xD4A148, 33), (0x0002B3, 34), (0x000347, 34), (0x000423, 34), (0x0007E9, 34),
    (0x000E0C, 34), (0x001302, 34), (0x0013E8, 34), (0x001500, 34), (0x0016EA, 34), (0x0018DE, 34),
    (0x001B21, 34), (0x001E64, 34), (0x00216A, 34), (0x0022FB, 34), (0x002314, 34), (0x0024D7, 34),
    (0x002710, 34), (0x28704E, 34), (0x3413E8, 34), (0x3C5282, 34), (0x4851B7, 34), (0x5891CF, 34),
    (0x645106, 34), (0x8086F2, 34), (0xA44CC8, 34), (0xAC6784, 34), (0xB49691, 34), (0xC8F750, 34),
    (0xE8B1FC, 34), (0xF894C2, 34), (0x001422, 35), (0x0015C5, 35), (0x00188B, 35), (0x0019B9, 35),
    (0x001A6B, 35), (0x001D09, 35), (0x002170, 35), (0x1866DA, 35), (0x24B6FD, 35), (0x74867A, 35),
    (0xB8AC6F, 35), (0xD4BED9, 35), (0x14FEB5, 35), (0x3417EB, 35), (0x44A842, 35), (0x847BEB, 35),
    (0x90B11C, 35), (0xA41F72, 35), (0xB083FE, 35), (0xC81F66, 35), (0xD89EF3, 35), (0xE0DB55, 35),
    (0xF8BC12, 35), (0x0001E6, 36), (0x000802, 36), (0x000F20, 36), (0x001871, 36), (0x00215A, 36),
    (0x0025B3, 36), (0x002655, 36), (0x10604B, 36), (0x2C27D7, 36), (0x705A0F, 36), (0x9C8E99, 36),
    (0xC8CB9E, 36), (0x040973, 36), (0x18A905, 36), (0x308D99, 36), (0x3CD92B, 36), (0x40A8F0, 36),
    (0x5820B1, 36), (0x68B599, 36), (0x80C16E, 36), (0x9457A5, 36), (0xA0D3C1, 36), (0xAC162D, 36),
    (0xD89D67, 36), (0x000C6E, 37), (0x0011D8, 37), (0x0013D4, 37), (0x0015F2, 37), (0x0018F3, 37),
    (0x001BFC, 37), (0x001E8C, 37), (0x049226, 37), (0x08606E, 37), (0x107B44, 37), (0x2CFDA1, 37),
    (0x704D7B, 37), (0x14DDA9, 37), (0x244BFE, 37), (0x382C4A, 37), (0x40167E, 37), (0x50465D, 37),
    (0x74D02B, 37), (0x90E6BA, 37), (0xAC220B, 37), (0xD850E6, 37), (0xF07959, 37), (0x00016C, 38),
    (0x006067, 38), (0x00A060, 38), (0x00E018, 38), (0x00E08F, 38), (0x1078D2, 38), (0x0000E8, 38),
    (0x206A8A, 38), (0x4CD577, 38), (0x80C5E6, 38), (0x9829A6, 38), (0xC01885, 38), (0x00096B, 39),
    (0x001A64, 39), (0x002186, 39), (0x002618, 39), (0x207693, 39), (0x54EE75, 39), (0x70723C, 39),
    (0x8CE748, 39), (0xA4C494, 39), (0xC4346B, 39), (0x005907, 39), (0x3C970E, 39), (0x6014B3, 39),
    (0x88708C, 39), (0xB88584, 39), (0xD8F883, 39), (0xE86A64, 39), (0x001617, 40), (0x002564, 40),
    (0x408D5C, 40), (0xD85ED3, 40), (0x00055B, 41), (0x001D7D, 41), (0x1C1B0D, 41), (0x74D435, 41),
    (0xE0D55E, 41), (0x70886B, 42), (0xC85B76, 42), (0x281878, 43), (0x6045BD, 43), (0x985FD3, 43),
    (0xC49DED, 43), (0x00E052, 44), (0x525400, 44), (0x00014A, 45), (0x00041F, 45), (0x000725, 45),
    (0x00096E, 45), (0x001315, 45), (0x0019C5, 45), (0x00248D, 45), (0x001D0D, 45), (0x0022CE, 45),
    (0x0024BE, 45), (0x00A096, 45), (0x080046, 45), (0x1048B1, 45), (0x280DFA, 45), (0x30F9ED, 45),
    (0x544249, 45), (0x709E29, 45), (0xAC9B0A, 45), (0xCC988B, 45), (0xFC0F4B, 45), (0x0005C9, 46),
    (0x001C62, 46), (0x001E75, 46), (0x001F6B, 46), (0x0022A9, 46), (0x10F96F, 46), (0x18B79E, 46),
    (0x203D66, 46), (0x3C25D7, 46), (0x5884B7, 46), (0x9893CC, 46), (0xA816B2, 46), (0xB83765, 46),
    (0xCC2D8C, 46), (0xF013C3, 46), (0x00E091, 46), (0x14C913, 46), (0x20DFB9, 46), (0x34FCEF, 46),
    (0x505527, 46), (0x685383, 46), (0x785DFA, 46), (0x88C9D0, 46), (0xA0B100, 46), (0xC4366C, 46),
    (0xD4A34F, 46), (0xF8A963, 46), (0x000B97, 47), (0x001608, 47), (0x008045, 47), (0x34E6D7, 47),
    (0x406186, 47), (0x0008E0, 48), (0x08ED6C, 48), (0x40A5EF, 48), (0x28C2DD, 49), (0x70288B, 49),
    (0x102A94, 50), (0x38A28C, 50), (0x001310, 51), (0x002622, 51), (0x20F17C, 51), (0xB4CD27, 51),
    (0x18FE34, 52), (0x240AC4, 52), (0x246F28, 52), (0x24A160, 52), (0x24B2DE, 52), (0x2C3AE8, 52),
    (0x30AEA4, 52), (0x3C71BF, 52), (0x483FDA, 52), (0x4C11AE, 52), (0x545A46, 52), (0x5C0272, 52),
    (0x600194, 52), (0x68C63A, 52), (0x70039F, 52), (0x7C87CE, 52), (0x840D8E, 52), (0x84F3EB, 52),
    (0x9097D5, 52), (0xA020A6, 52), (0xAC67B2, 52), (0xB4E62D, 52), (0xBCDD29, 52), (0xC44F33, 52),
    (0xCC50E3, 52), (0xD8A01D, 52), (0xDC4F22, 52), (0xE09806, 52), (0xE868E7, 52), (0xECFABC, 52),
    (0xF4CFA2, 52), (0x348518, 52), (0x349454, 52), (0x34AB95, 52), (0x4022D8, 52), (0x485519, 52),
    (0x58CF79, 52), (0x68B6B3, 52), (0x782184, 52), (0x8C4B14, 52), (0x94B97E, 52), (0x9C9C1F, 52),
    (0xA4CF12, 52), (0xC82E18, 52), (0xD8F15B, 52), (0xEC6260, 52), (0xB827EB, 53), (0xDCA632, 53),
    (0x28CDC1, 53), (0x34EA34, 54), (0x04CF8C, 55), (0x54EF44, 55), (0x6490C1, 55), (0x780F77, 56),
    (0xEC0BAE, 56), (0x001788, 57), (0xECB5FA, 57), (0x3C286D, 58), (0xFC65DE, 58), (0x001A11, 58),
    (0xF88FCA, 58), (0x68FF7B, 59), (0x74C246, 59), (0xFC6B9F, 59), (0x000085, 60), (0x180CAC, 60),
    (0x7085C2, 60), (0x008077, 61), (0x30055C, 61), (0x80A589, 61), (0xE45F01, 61), (0x000048, 62),
    (0x0026AB, 62), (0x64EB8C, 62), (0xAC1826, 62), (0x0000AA, 63), (0x0000C8, 63), (0x0009BF, 64),
    (0x001656, 64), (0x0017AB, 64), (0x0019FD, 64), (0x001BEA, 64), (0x001F32, 64), (0x002147, 64),
    (0x00224C, 64), (0x0022AA, 64), (0x002331, 64), (0x00241E, 64), (0x002444, 64), (0x0025A0, 64),
    (0x002659, 64), (0x342FBD, 64), (0x7CBB8A, 64), (0x9458CB, 64), (0x98B6E9, 64), (0xB88AEC, 64),
    (0xD86BF7, 64), (0xE00C7F, 64), (0xE0E751, 64), (0x7C1E52, 65), (0xDCB4C4, 65), (0xF06E0B, 65),
    (0x000C29, 66), (0x005056, 66), (0x080027, 67), (0x00155D, 68), (0x0242AC, 69),
];


/// The `i`-th entry of the identifier table.
pub closed spec fn oui_entry(i: int) -> (u32, u8) {
    OUI_TABLE@[i]
}

/// The `i`-th entry of the identifier table.
#[verifier::rlimit(100)]
pub fn oui_entry_at(i: usize) -> (r: (u32, u8))
    requires
        i < 1361,
    ensures
        r == oui_entry(i as int),
{
    OUI_TABLE[i]
}

} // verus!
