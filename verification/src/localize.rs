//! Localization of the external service's rank-tier and civilization keys.
//! Keys outside the tables fall back to the raw key with underscores replaced
//! by spaces.

use vstd::prelude::*;
use vstd::string::*;
use crate::text::{spaced, str_eq, replace_underscores};

verus! {

/// The localized name of a rank tier key.
pub open spec fn tier_spec(s: Seq<char>) -> Seq<char> {
    if s == "conqueror_3"@ {
        "征服者3"@
    } else if s == "conqueror_2"@ {
        "征服者2"@
    } else if s == "conqueror_1"@ {
        "征服者1"@
    } else if s == "diamond_3"@ {
        "鑽石3"@
    } else if s == "diamond_2"@ {
        "鑽石2"@
    } else if s == "diamond_1"@ {
        "鑽石1"@
    } else if s == "platinum_3"@ {
        "白金3"@
    } else if s == "platinum_2"@ {
        "白金2"@
    } else if s == "platinum_1"@ {
        "白金1"@
    } else if s == "gold_3"@ {
        "黃金3"@
    } else if s == "gold_2"@ {
        "黃金2"@
    } else if s == "gold_1"@ {
        "黃金1"@
    } else if s == "silver_3"@ {
        "白銀3"@
    } else if s == "silver_2"@ {
        "白銀2"@
    } else if s == "silver_1"@ {
        "白銀1"@
    } else if s == "bronze_3"@ {
        "青銅3"@
    } else if s == "bronze_2"@ {
        "青銅2"@
    } else if s == "bronze_1"@ {
        "青銅1"@
    } else {
        spaced(s)
    }
}

/// Localizes a rank tier key.
pub fn tier_display(s: &str) -> (r: String)
    ensures
        r@ == tier_spec(s@),
{
    if str_eq(s, "conqueror_3") {
        String::from_str("征服者3")
    } else if str_eq(s, "conqueror_2") {
        String::from_str("征服者2")
    } else if str_eq(s, "conqueror_1") {
        String::from_str("征服者1")
    } else if str_eq(s, "diamond_3") {
        String::from_str("鑽石3")
    } else if str_eq(s, "diamond_2") {
        String::from_str("鑽石2")
    } else if str_eq(s, "diamond_1") {
        String::from_str("鑽石1")
    } else if str_eq(s, "platinum_3") {
        String::from_str("白金3")
    } else if str_eq(s, "platinum_2") {
        String::from_str("白金2")
    } else if str_eq(s, "platinum_1") {
        String::from_str("白金1")
    } else if str_eq(s, "gold_3") {
        String::from_str("黃金3")
    } else if str_eq(s, "gold_2") {
        String::from_str("黃金2")
    } else if str_eq(s, "gold_1") {
        String::from_str("黃金1")
    } else if str_eq(s, "silver_3") {
        String::from_str("白銀3")
    } else if str_eq(s, "silver_2") {
        String::from_str("白銀2")
    } else if str_eq(s, "silver_1") {
        String::from_str("白銀1")
    } else if str_eq(s, "bronze_3") {
        String::from_str("青銅3")
    } else if str_eq(s, "bronze_2") {
        String::from_str("青銅2")
    } else if str_eq(s, "bronze_1") {
        String::from_str("青銅1")
    } else {
        replace_underscores(s)
    }
}

/// The localized name of a civilization key.
pub open spec fn civ_spec(s: Seq<char>) -> Seq<char> {
    if s == "byzantines"@ {
        "東羅馬帝國(Imperium Romanum Orientale)"@
    } else if s == "holy_roman_empire"@ {
        "神聖羅馬帝國(Heiliges Römisches Reich)"@
    } else if s == "delhi_sultanate"@ {
        "德里蘇丹國(سلطنت دهلی)"@
    } else if s == "french"@ {
        "法蘭西(Français)"@
    } else if s == "malians"@ {
        "馬利(Manden Duguba)"@
    } else if s == "order_of_the_dragon"@ {
        "龍騎士團(Societas Draconistarum)"@
    } else if s == "abbasid_dynasty"@ {
        "阿拔斯王朝(الْخِلَافَة الْعَبَّاسِيَّة)"@
    } else if s == "english"@ {
        "英格蘭(English)"@
    } else if s == "mongols"@ {
        "蒙古(ᠶᠡᠬᠡ ᠮᠣᠩᠭᠣᠯ ᠤᠯᠤᠰ)"@
    } else if s == "ayyubids"@ {
        "阿育布(ئەیووبی)"@
    } else if s == "ottomans"@ {
        "鄂圖曼(دولت علیهٔ عثمانیه)"@
    } else if s == "rus"@ {
        "羅斯(Русь)"@
    } else if s == "jeanne_darc"@ {
        "聖女貞德(Jehanne Darc)"@
    } else if s == "japanese"@ {
        "日本国"@
    } else if s == "chinese"@ {
        "中國"@
    } else if s == "zhu_xis_legacy"@ {
        "朱熹"@
    } else if s == "knights_templar"@ {
        "聖殿騎士團(Les Chevaliers Templiers)"@
    } else if s == "house_of_lancaster"@ {
        "蘭卡斯特家族(House of Lancaster)"@
    } else if s == "macedonian_dynasty"@ {
        "馬其頓王朝(Μακεδονική Δυναστεία)"@
    } else if s == "golden_horde"@ {
        "欽察汗國(Алтан Орд)"@
    } else if s == "tughlaq_dynasty"@ {
        "圖格魯克王朝(تغلق شاهیان)"@
    } else if s == "sengoku_daimyo"@ {
        "戦国大名"@
    } else {
        spaced(s)
    }
}

/// Localizes a civilization key.
pub fn civ_display(s: &str) -> (r: String)
    ensures
        r@ == civ_spec(s@),
{
    if str_eq(s, "byzantines") {
        String::from_str("東羅馬帝國(Imperium Romanum Orientale)")
    } else if str_eq(s, "holy_roman_empire") {
        String::from_str("神聖羅馬帝國(Heiliges Römisches Reich)")
    } else if str_eq(s, "delhi_sultanate") {
        String::from_str("德里蘇丹國(سلطنت دهلی)")
    } else if str_eq(s, "french") {
        String::from_str("法蘭西(Français)")
    } else if str_eq(s, "malians") {
        String::from_str("馬利(Manden Duguba)")
    } else if str_eq(s, "order_of_the_dragon") {
        String::from_str("龍騎士團(Societas Draconistarum)")
    } else if str_eq(s, "abbasid_dynasty") {
        String::from_str("阿拔斯王朝(الْخِلَافَة الْعَبَّاسِيَّة)")
    } else if str_eq(s, "english") {
        String::from_str("英格蘭(English)")
    } else if str_eq(s, "mongols") {
        String::from_str("蒙古(ᠶᠡᠬᠡ ᠮᠣᠩᠭᠣᠯ ᠤᠯᠤᠰ)")
    } else if str_eq(s, "ayyubids") {
        String::from_str("阿育布(ئەیووبی)")
    } else if str_eq(s, "ottomans") {
        String::from_str("鄂圖曼(دولت علیهٔ عثمانیه)")
    } else if str_eq(s, "rus") {
        String::from_str("羅斯(Русь)")
    } else if str_eq(s, "jeanne_darc") {
        String::from_str("聖女貞德(Jehanne Darc)")
    } else if str_eq(s, "japanese") {
        String::from_str("日本国")
    } else if str_eq(s, "chinese") {
        String::from_str("中國")
    } else if str_eq(s, "zhu_xis_legacy") {
        String::from_str("朱熹")
    } else if str_eq(s, "knights_templar") {
        String::from_str("聖殿騎士團(Les Chevaliers Templiers)")
    } else if str_eq(s, "house_of_lancaster") {
        String::from_str("蘭卡斯特家族(House of Lancaster)")
    } else if str_eq(s, "macedonian_dynasty") {
        String::from_str("馬其頓王朝(Μακεδονική Δυναστεία)")
    } else if str_eq(s, "golden_horde") {
        String::from_str("欽察汗國(Алтан Орд)")
    } else if str_eq(s, "tughlaq_dynasty") {
        String::from_str("圖格魯克王朝(تغلق شاهیان)")
    } else if str_eq(s, "sengoku_daimyo") {
        String::from_str("戦国大名")
    } else {
        replace_underscores(s)
    }
}

} // verus!
