//! Chinese display names for facilities and items.

use vstd::prelude::*;
use crate::text::{chars_of, concat_str, str_eq};

verus! {

/// The Chinese name of a facility, if it is known.
pub open spec fn facility_zh_spec(name: Seq<char>) -> Option<Seq<char>> {
    if name == "Refining Unit"@ {
        Some("精炼炉"@)
    } else if name == "Shredding Unit"@ {
        Some("粉碎机"@)
    } else if name == "Fitting Unit"@ {
        Some("配件机"@)
    } else if name == "Moulding Unit"@ {
        Some("塑形机"@)
    } else if name == "Seed-Picking Unit"@ {
        Some("采种机"@)
    } else if name == "Planting Unit"@ {
        Some("种植机"@)
    } else if name == "Gearing Unit"@ {
        Some("装备原件机"@)
    } else if name == "Filling Unit"@ {
        Some("灌装机"@)
    } else if name == "Packaging Unit"@ {
        Some("封装机"@)
    } else if name == "Grinding Unit"@ {
        Some("研磨机"@)
    } else if name == "Reactor Crucible"@ {
        Some("反应池"@)
    } else if name == "Forge of the Sky"@ {
        Some("天有洪炉"@)
    } else if name == "Separating Unit"@ {
        Some("拆解机"@)
    } else if name == "Thermal Bank"@ {
        Some("热容池"@)
    } else {
        None
    }
}

/// Returns the Chinese name of a facility, if it is known.
pub fn facility_zh(name: &str) -> (r: Option<&'static str>)
    ensures
        r is Some == facility_zh_spec(name@) is Some,
        r matches Some(z) ==> facility_zh_spec(name@) == Some(z@),
{
    if str_eq(name, "Refining Unit") {
        Some("精炼炉")
    } else if str_eq(name, "Shredding Unit") {
        Some("粉碎机")
    } else if str_eq(name, "Fitting Unit") {
        Some("配件机")
    } else if str_eq(name, "Moulding Unit") {
        Some("塑形机")
    } else if str_eq(name, "Seed-Picking Unit") {
        Some("采种机")
    } else if str_eq(name, "Planting Unit") {
        Some("种植机")
    } else if str_eq(name, "Gearing Unit") {
        Some("装备原件机")
    } else if str_eq(name, "Filling Unit") {
        Some("灌装机")
    } else if str_eq(name, "Packaging Unit") {
        Some("封装机")
    } else if str_eq(name, "Grinding Unit") {
        Some("研磨机")
    } else if str_eq(name, "Reactor Crucible") {
        Some("反应池")
    } else if str_eq(name, "Forge of the Sky") {
        Some("天有洪炉")
    } else if str_eq(name, "Separating Unit") {
        Some("拆解机")
    } else if str_eq(name, "Thermal Bank") {
        Some("热容池")
    } else {
        None
    }
}

/// The Chinese name of an item listed by name, if it is listed.
pub open spec fn item_zh_listed(name: Seq<char>) -> Option<Seq<char>> {
    if name == "Originium Ore"@ {
        Some("源石矿"@)
    } else if name == "Originium Powder"@ {
        Some("源石粉"@)
    } else if name == "Dense Originium Powder"@ {
        Some("浓缩源石粉"@)
    } else if name == "Origocrust"@ {
        Some("晶体外壳"@)
    } else if name == "Origocrust Powder"@ {
        Some("晶体外壳粉"@)
    } else if name == "Dense Origocrust Powder"@ {
        Some("浓缩晶体外壳粉"@)
    } else if name == "Packed Origocrust"@ {
        Some("封装晶体外壳"@)
    } else if name == "Ferrium Ore"@ {
        Some("铁矿"@)
    } else if name == "Ferrium"@ {
        Some("铁"@)
    } else if name == "Ferrium Part"@ {
        Some("铁制零件"@)
    } else if name == "Ferrium Powder"@ {
        Some("铁粉"@)
    } else if name == "Dense Ferrium Powder"@ {
        Some("浓缩铁粉"@)
    } else if name == "Ferrium Component"@ {
        Some("铁制部件"@)
    } else if name == "Ferrium Bottle"@ {
        Some("铁质瓶"@)
    } else if name == "Amethyst Ore"@ {
        Some("紫晶矿"@)
    } else if name == "Amethyst Fiber"@ {
        Some("紫晶纤维"@)
    } else if name == "Amethyst Part"@ {
        Some("紫晶零件"@)
    } else if name == "Amethyst Powder"@ {
        Some("紫晶粉"@)
    } else if name == "Amethyst Component"@ {
        Some("紫晶部件"@)
    } else if name == "Amethyst Bottle"@ {
        Some("紫晶质瓶"@)
    } else if name == "Cryston Part"@ {
        Some("晶通零件"@)
    } else if name == "Cryston Fiber"@ {
        Some("晶通纤维"@)
    } else if name == "Cryston Powder"@ {
        Some("晶通粉"@)
    } else if name == "Cryston Component"@ {
        Some("晶通部件"@)
    } else if name == "Cryston Bottle"@ {
        Some("晶通质瓶"@)
    } else if name == "Xiranite"@ {
        Some("希然石"@)
    } else if name == "Liquid Xiranite"@ {
        Some("液态希然石"@)
    } else if name == "Xiranite Component"@ {
        Some("希然石部件"@)
    } else if name == "Clean Water"@ {
        Some("清水"@)
    } else if name == "Jincao"@ {
        Some("金草"@)
    } else if name == "Jincao Powder"@ {
        Some("金草粉"@)
    } else if name == "Jincao Solution"@ {
        Some("金草溶液"@)
    } else if name == "Jincao Drink"@ {
        Some("金草饮料"@)
    } else if name == "Yazhen"@ {
        Some("雅针"@)
    } else if name == "Yazhen Powder"@ {
        Some("雅针粉"@)
    } else if name == "Yazhen Solution"@ {
        Some("雅针溶液"@)
    } else if name == "Yazhen Syringe (C)"@ {
        Some("雅针注射器(C)"@)
    } else if name == "Sandleaf"@ {
        Some("沙叶"@)
    } else if name == "Sandleaf Powder"@ {
        Some("沙叶粉"@)
    } else if name == "Buckflower"@ {
        Some("荞愈花"@)
    } else if name == "Buckflower Powder"@ {
        Some("荞愈花粉"@)
    } else if name == "Ground Buckflower Powder"@ {
        Some("研磨荞愈花粉"@)
    } else if name == "Citrome"@ {
        Some("柑实"@)
    } else if name == "Citrome Powder"@ {
        Some("柑实粉"@)
    } else if name == "Ground Citrome Powder"@ {
        Some("研磨柑实粉"@)
    } else if name == "Buck Capsule (A)"@ {
        Some("精选荞愈胶囊"@)
    } else if name == "Buck Capsule (B)"@ {
        Some("优质荞愈胶囊"@)
    } else if name == "Buck Capsule (C)"@ {
        Some("荞愈胶囊"@)
    } else if name == "Canned Citrome (A)"@ {
        Some("精选柑实罐头"@)
    } else if name == "Canned Citrome (B)"@ {
        Some("优质柑实罐头"@)
    } else if name == "Canned Citrome (C)"@ {
        Some("柑实罐头"@)
    } else if name == "LC Valley Battery"@ {
        Some("低容谷地电池"@)
    } else if name == "SC Valley Battery"@ {
        Some("中容谷地电池"@)
    } else if name == "HC Valley Battery"@ {
        Some("高容谷地电池"@)
    } else if name == "LC Wuling Battery"@ {
        Some("低容五陵电池"@)
    } else if name == "Carbon"@ {
        Some("碳"@)
    } else if name == "Carbon Powder"@ {
        Some("碳粉"@)
    } else if name == "Dense Carbon Powder"@ {
        Some("浓缩碳粉"@)
    } else if name == "Stabilized Carbon"@ {
        Some("稳定碳"@)
    } else if name == "Steel"@ {
        Some("钢"@)
    } else if name == "Steel Part"@ {
        Some("钢制零件"@)
    } else if name == "Steel Bottle"@ {
        Some("钢质瓶"@)
    } else if name == "Wood"@ {
        Some("木材"@)
    } else if name == "Power"@ {
        Some("电力"@)
    } else if name == "Industrial Explosive"@ {
        Some("工业炸药"@)
    } else if name == "Aketine"@ {
        Some("阿刻汀"@)
    } else if name == "Aketine Powder"@ {
        Some("阿刻汀粉"@)
    } else if name == "Aketine Seed"@ {
        Some("阿刻汀种子"@)
    } else if name == "Amber Rice"@ {
        Some("琥珀米"@)
    } else if name == "Amber Rice Seed"@ {
        Some("琥珀米种子"@)
    } else if name == "Redjade Ginseng"@ {
        Some("赤玉人参"@)
    } else if name == "Reed Rye"@ {
        Some("芦苇黑麦"@)
    } else if name == "Tartpepper"@ {
        Some("酸椒"@)
    } else if name == "Bumper-Rich"@ {
        Some("富缓冲剂"@)
    } else if name == "Burdo-Muck"@ {
        Some("伯尔多泥"@)
    } else {
        None
    }
}

fn item_zh_direct(name: &str) -> (r: Option<&'static str>)
    ensures
        r is Some == item_zh_listed(name@) is Some,
        r matches Some(z) ==> item_zh_listed(name@) == Some(z@),
{
    if str_eq(name, "Originium Ore") {
        Some("源石矿")
    } else if str_eq(name, "Originium Powder") {
        Some("源石粉")
    } else if str_eq(name, "Dense Originium Powder") {
        Some("浓缩源石粉")
    } else if str_eq(name, "Origocrust") {
        Some("晶体外壳")
    } else if str_eq(name, "Origocrust Powder") {
        Some("晶体外壳粉")
    } else if str_eq(name, "Dense Origocrust Powder") {
        Some("浓缩晶体外壳粉")
    } else if str_eq(name, "Packed Origocrust") {
        Some("封装晶体外壳")
    } else if str_eq(name, "Ferrium Ore") {
        Some("铁矿")
    } else if str_eq(name, "Ferrium") {
        Some("铁")
    } else if str_eq(name, "Ferrium Part") {
        Some("铁制零件")
    } else if str_eq(name, "Ferrium Powder") {
        Some("铁粉")
    } else if str_eq(name, "Dense Ferrium Powder") {
        Some("浓缩铁粉")
    } else if str_eq(name, "Ferrium Component") {
        Some("铁制部件")
    } else if str_eq(name, "Ferrium Bottle") {
        Some("铁质瓶")
    } else if str_eq(name, "Amethyst Ore") {
        Some("紫晶矿")
    } else if str_eq(name, "Amethyst Fiber") {
        Some("紫晶纤维")
    } else if str_eq(name, "Amethyst Part") {
        Some("紫晶零件")
    } else if str_eq(name, "Amethyst Powder") {
        Some("紫晶粉")
    } else if str_eq(name, "Amethyst Component") {
        Some("紫晶部件")
    } else if str_eq(name, "Amethyst Bottle") {
        Some("紫晶质瓶")
    } else if str_eq(name, "Cryston Part") {
        Some("晶通零件")
    } else if str_eq(name, "Cryston Fiber") {
        Some("晶通纤维")
    } else if str_eq(name, "Cryston Powder") {
        Some("晶通粉")
    } else if str_eq(name, "Cryston Component") {
        Some("晶通部件")
    } else if str_eq(name, "Cryston Bottle") {
        Some("晶通质瓶")
    } else if str_eq(name, "Xiranite") {
        Some("希然石")
    } else if str_eq(name, "Liquid Xiranite") {
        Some("液态希然石")
    } else if str_eq(name, "Xiranite Component") {
        Some("希然石部件")
    } else if str_eq(name, "Clean Water") {
        Some("清水")
    } else if str_eq(name, "Jincao") {
        Some("金草")
    } else if str_eq(name, "Jincao Powder") {
        Some("金草粉")
    } else if str_eq(name, "Jincao Solution") {
        Some("金草溶液")
    } else if str_eq(name, "Jincao Drink") {
        Some("金草饮料")
    } else if str_eq(name, "Yazhen") {
        Some("雅针")
    } else if str_eq(name, "Yazhen Powder") {
        Some("雅针粉")
    } else if str_eq(name, "Yazhen Solution") {
        Some("雅针溶液")
    } else if str_eq(name, "Yazhen Syringe (C)") {
        Some("雅针注射器(C)")
    } else if str_eq(name, "Sandleaf") {
        Some("沙叶")
    } else if str_eq(name, "Sandleaf Powder") {
        Some("沙叶粉")
    } else if str_eq(name, "Buckflower") {
        Some("荞愈花")
    } else if str_eq(name, "Buckflower Powder") {
        Some("荞愈花粉")
    } else if str_eq(name, "Ground Buckflower Powder") {
        Some("研磨荞愈花粉")
    } else if str_eq(name, "Citrome") {
        Some("柑实")
    } else if str_eq(name, "Citrome Powder") {
        Some("柑实粉")
    } else if str_eq(name, "Ground Citrome Powder") {
        Some("研磨柑实粉")
    } else if str_eq(name, "Buck Capsule (A)") {
        Some("精选荞愈胶囊")
    } else if str_eq(name, "Buck Capsule (B)") {
        Some("优质荞愈胶囊")
    } else if str_eq(name, "Buck Capsule (C)") {
        Some("荞愈胶囊")
    } else if str_eq(name, "Canned Citrome (A)") {
        Some("精选柑实罐头")
    } else if str_eq(name, "Canned Citrome (B)") {
        Some("优质柑实罐头")
    } else if str_eq(name, "Canned Citrome (C)") {
        Some("柑实罐头")
    } else if str_eq(name, "LC Valley Battery") {
        Some("低容谷地电池")
    } else if str_eq(name, "SC Valley Battery") {
        Some("中容谷地电池")
    } else if str_eq(name, "HC Valley Battery") {
        Some("高容谷地电池")
    } else if str_eq(name, "LC Wuling Battery") {
        Some("低容五陵电池")
    } else if str_eq(name, "Carbon") {
        Some("碳")
    } else if str_eq(name, "Carbon Powder") {
        Some("碳粉")
    } else if str_eq(name, "Dense Carbon Powder") {
        Some("浓缩碳粉")
    } else if str_eq(name, "Stabilized Carbon") {
        Some("稳定碳")
    } else if str_eq(name, "Steel") {
        Some("钢")
    } else if str_eq(name, "Steel Part") {
        Some("钢制零件")
    } else if str_eq(name, "Steel Bottle") {
        Some("钢质瓶")
    } else if str_eq(name, "Wood") {
        Some("木材")
    } else if str_eq(name, "Power") {
        Some("电力")
    } else if str_eq(name, "Industrial Explosive") {
        Some("工业炸药")
    } else if str_eq(name, "Aketine") {
        Some("阿刻汀")
    } else if str_eq(name, "Aketine Powder") {
        Some("阿刻汀粉")
    } else if str_eq(name, "Aketine Seed") {
        Some("阿刻汀种子")
    } else if str_eq(name, "Amber Rice") {
        Some("琥珀米")
    } else if str_eq(name, "Amber Rice Seed") {
        Some("琥珀米种子")
    } else if str_eq(name, "Redjade Ginseng") {
        Some("赤玉人参")
    } else if str_eq(name, "Reed Rye") {
        Some("芦苇黑麦")
    } else if str_eq(name, "Tartpepper") {
        Some("酸椒")
    } else if str_eq(name, "Bumper-Rich") {
        Some("富缓冲剂")
    } else if str_eq(name, "Burdo-Muck") {
        Some("伯尔多泥")
    } else {
        None
    }
}

/// The suffix that marks a seed item.
pub open spec fn seed_suffix() -> Seq<char> {
    seq![' ', 'S', 'e', 'e', 'd']
}

/// An opening `" ("` starts at character `j` of `s`.
pub open spec fn opens_at(s: Seq<char>, j: int) -> bool {
    0 <= j && j + 1 < s.len() && s[j] == ' ' && s[j + 1] == '('
}

/// The last position below `n` where `" ("` starts, or `-1`.
pub open spec fn last_open_below(s: Seq<char>, n: int) -> int
    decreases n,
{
    if n <= 0 {
        -1
    } else if opens_at(s, n - 1) {
        n - 1
    } else {
        last_open_below(s, n - 1)
    }
}

/// `"base (inner)"` split at its last `" ("` into a non-empty base and a non-empty
/// inner text, when the name ends with `)`.
pub open spec fn split_parenthesized_spec(s: Seq<char>) -> Option<(Seq<char>, Seq<char>)> {
    let open = last_open_below(s, s.len() as int);
    if open < 0 || s.len() == 0 || s.last() != ')' {
        None
    } else if open == 0 || open + 2 >= s.len() - 1 {
        None
    } else {
        Some((s.subrange(0, open), s.subrange(open + 2, s.len() - 1)))
    }
}

proof fn lemma_last_open_below(s: Seq<char>, n: int)
    requires
        n >= 0,
    ensures
        last_open_below(s, n) < n,
        last_open_below(s, n) >= 0 ==> opens_at(s, last_open_below(s, n)),
    decreases n,
{
    if n > 0 && !opens_at(s, n - 1) {
        lemma_last_open_below(s, n - 1);
    }
}

/// The Chinese name of an item: a listed name, or `<base> Seed` as the base's name
/// followed by 种子, or `<base> (<modifier>)` as the base's name followed by the
/// modifier's name (or the modifier itself) in full-width parentheses.
pub open spec fn item_zh_spec(name: Seq<char>) -> Option<Seq<char>>
    decreases name.len(),
{
    if item_zh_listed(name) is Some {
        item_zh_listed(name)
    } else if name.len() >= 5 && name.subrange(name.len() - 5, name.len() as int) == seed_suffix() {
        match item_zh_spec(name.subrange(0, name.len() - 5)) {
            Some(b) => Some(b + "种子"@),
            None => None,
        }
    } else {
        let open = last_open_below(name, name.len() as int);
        if open > 0 && open + 2 < name.len() - 1 && name.last() == ')' {
            let base = name.subrange(0, open);
            let modifier = name.subrange(open + 2, name.len() - 1);
            match item_zh_spec(base) {
                Some(b) => Some(
                    b + "（"@ + (match item_zh_spec(modifier) {
                        Some(m) => m,
                        None => modifier,
                    }) + "）"@,
                ),
                None => None,
            }
        } else {
            None
        }
    }
}

/// Splits `"base (inner)"` at its last `" ("`; both parts must be non-empty.
pub fn split_parenthesized(s: &str) -> (r: Option<(&str, &str)>)
    ensures
        r is Some == split_parenthesized_spec(s@) is Some,
        r matches Some(p) ==> split_parenthesized_spec(s@) == Some((p.0@, p.1@)),
{
    let v = chars_of(s);
    let n = v.len();
    let mut k: usize = n;
    let mut open: Option<usize> = None;
    while k > 0
        invariant_except_break
            open is None,
        invariant
            v@ == s@,
            n == v@.len(),
            k <= n,
            last_open_below(s@, n as int) == last_open_below(s@, k as int),
        ensures
            open is None ==> last_open_below(s@, n as int) == -1,
            open matches Some(o) ==> o == last_open_below(s@, n as int),
        decreases k,
    {
        if k < n && v[k - 1] == ' ' && v[k] == '(' {
            open = Some(k - 1);
            break;
        }
        k = k - 1;
    }
    let open = match open {
        Some(o) => o,
        None => {
            return None;
        },
    };
    assert(open as int == last_open_below(s@, n as int));
    proof {
        lemma_last_open_below(s@, n as int);
    }
    if n == 0 || v[n - 1] != ')' {
        return None;
    }
    if open == 0 || open + 2 >= n - 1 {
        return None;
    }
    let base = s.substring_char(0, open);
    let inner = s.substring_char(open + 2, n - 1);
    Some((base, inner))
}

/// Returns the Chinese name of an item, if one can be formed (see [`item_zh_spec`]).
pub fn item_zh(name: &str) -> (r: Option<String>)
    ensures
        r is Some == item_zh_spec(name@) is Some,
        r matches Some(z) ==> item_zh_spec(name@) == Some(z@),
    decreases name@.len(),
{
    if let Some(v) = item_zh_direct(name) {
        return Some(String::from_str(v));
    }
    let n = name.unicode_len();
    if n >= 5 {
        let tail = name.substring_char(n - 5, n);
        proof {
            reveal_strlit(" Seed");
            assert(" Seed"@ =~= seed_suffix());
        }
        if str_eq(tail, " Seed") {
            let base = name.substring_char(0, n - 5);
            return match item_zh(base) {
                Some(b) => Some(concat_str(b.as_str(), "种子")),
                None => None,
            };
        }
    }
    proof {
        lemma_last_open_below(name@, name@.len() as int);
    }
    match split_parenthesized(name) {
        Some((base, modifier)) => {
            let base_zh = match item_zh(base) {
                Some(b) => b,
                None => {
                    return None;
                },
            };
            let modifier_zh = match item_zh(modifier) {
                Some(m) => m,
                None => String::from_str(modifier),
            };
            let mut out = base_zh;
            out.append("（");
            out.append(modifier_zh.as_str());
            out.append("）");
            Some(out)
        },
        None => None,
    }
}


/// A few characters of a name and its length, enough to tell the listed names apart.
spec fn name_marks(z: Seq<char>) -> (nat, char, char, char, char, char) {
    (z.len(), z[0], z[1], z[2], z[z.len() - 1], z[z.len() - 2])
}

/// Different facilities have different Chinese names: a known facility's name
/// names no other facility.
pub proof fn law_facility_names_distinct(a: Seq<char>, b: Seq<char>)
    requires
        facility_zh_spec(a) is Some,
        facility_zh_spec(a) == facility_zh_spec(b),
    ensures
        a == b,
{
    assert(name_marks(facility_zh_spec(a)->Some_0) == name_marks(facility_zh_spec(b)->Some_0));
    reveal_strlit("精炼炉");
    reveal_strlit("粉碎机");
    reveal_strlit("配件机");
    reveal_strlit("塑形机");
    reveal_strlit("采种机");
    reveal_strlit("种植机");
    reveal_strlit("装备原件机");
    reveal_strlit("灌装机");
    reveal_strlit("封装机");
    reveal_strlit("研磨机");
    reveal_strlit("反应池");
    reveal_strlit("天有洪炉");
    reveal_strlit("拆解机");
    reveal_strlit("热容池");
}

/// Different listed items have different Chinese names: a listed item's name names
/// no other listed item.
pub proof fn law_listed_item_names_distinct(a: Seq<char>, b: Seq<char>)
    requires
        item_zh_listed(a) is Some,
        item_zh_listed(a) == item_zh_listed(b),
    ensures
        a == b,
{
    assert(name_marks(item_zh_listed(a)->Some_0) == name_marks(item_zh_listed(b)->Some_0));
    reveal_strlit("源石矿");
    reveal_strlit("源石粉");
    reveal_strlit("浓缩源石粉");
    reveal_strlit("晶体外壳");
    reveal_strlit("晶体外壳粉");
    reveal_strlit("浓缩晶体外壳粉");
    reveal_strlit("封装晶体外壳");
    reveal_strlit("铁矿");
    reveal_strlit("铁");
    reveal_strlit("铁制零件");
    reveal_strlit("铁粉");
    reveal_strlit("浓缩铁粉");
    reveal_strlit("铁制部件");
    reveal_strlit("铁质瓶");
    reveal_strlit("紫晶矿");
    reveal_strlit("紫晶纤维");
    reveal_strlit("紫晶零件");
    reveal_strlit("紫晶粉");
    reveal_strlit("紫晶部件");
    reveal_strlit("紫晶质瓶");
    reveal_strlit("晶通零件");
    reveal_strlit("晶通纤维");
    reveal_strlit("晶通粉");
    reveal_strlit("晶通部件");
    reveal_strlit("晶通质瓶");
    reveal_strlit("希然石");
    reveal_strlit("液态希然石");
    reveal_strlit("希然石部件");
    reveal_strlit("清水");
    reveal_strlit("金草");
    reveal_strlit("金草粉");
    reveal_strlit("金草溶液");
    reveal_strlit("金草饮料");
    reveal_strlit("雅针");
    reveal_strlit("雅针粉");
    reveal_strlit("雅针溶液");
    reveal_strlit("雅针注射器(C)");
    reveal_strlit("沙叶");
    reveal_strlit("沙叶粉");
    reveal_strlit("荞愈花");
    reveal_strlit("荞愈花粉");
    reveal_strlit("研磨荞愈花粉");
    reveal_strlit("柑实");
    reveal_strlit("柑实粉");
    reveal_strlit("研磨柑实粉");
    reveal_strlit("精选荞愈胶囊");
    reveal_strlit("优质荞愈胶囊");
    reveal_strlit("荞愈胶囊");
    reveal_strlit("精选柑实罐头");
    reveal_strlit("优质柑实罐头");
    reveal_strlit("柑实罐头");
    reveal_strlit("低容谷地电池");
    reveal_strlit("中容谷地电池");
    reveal_strlit("高容谷地电池");
    reveal_strlit("低容五陵电池");
    reveal_strlit("碳");
    reveal_strlit("碳粉");
    reveal_strlit("浓缩碳粉");
    reveal_strlit("稳定碳");
    reveal_strlit("钢");
    reveal_strlit("钢制零件");
    reveal_strlit("钢质瓶");
    reveal_strlit("木材");
    reveal_strlit("电力");
    reveal_strlit("工业炸药");
    reveal_strlit("阿刻汀");
    reveal_strlit("阿刻汀粉");
    reveal_strlit("阿刻汀种子");
    reveal_strlit("琥珀米");
    reveal_strlit("琥珀米种子");
    reveal_strlit("赤玉人参");
    reveal_strlit("芦苇黑麦");
    reveal_strlit("酸椒");
    reveal_strlit("富缓冲剂");
    reveal_strlit("伯尔多泥");
}

} // verus!
