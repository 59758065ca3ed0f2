//! The class table: each class with its fixed detection index, grouped by category.

use crate::text::text_eq;
use vstd::prelude::*;

verus! {

/// Number of classes.
pub const CLASS_COUNT: u16 = 69;

/// Number of categories.
pub const CATEGORY_COUNT: u16 = 16;

#[derive(Debug, Clone, Copy)]
pub struct ClassInfo {
    pub id: &'static str,
    pub name: &'static str,
    pub detection_index: u16,
}

#[derive(Debug)]
pub struct ClassCategory {
    pub name: &'static str,
    pub classes: Vec<ClassInfo>,
}

/// Stable id of the class with detection index `i`.
pub open spec fn class_id_at(i: u16) -> Seq<char> {
    match i {
        0 => "male_slayer_blade_master"@,
        1 => "male_slayer_soul_bender"@,
        2 => "male_slayer_berserker"@,
        3 => "male_slayer_asura"@,
        4 => "male_slayer_ghostblade"@,
        5 => "female_slayer_sword_master"@,
        6 => "female_slayer_demon_slayer"@,
        7 => "female_slayer_vagabond"@,
        8 => "female_slayer_dark_templar"@,
        9 => "female_slayer_spectre"@,
        10 => "male_fighter_nen_master"@,
        11 => "male_fighter_striker"@,
        12 => "male_fighter_brawler"@,
        13 => "male_fighter_grappler"@,
        14 => "female_fighter_nen_master"@,
        15 => "female_fighter_striker"@,
        16 => "female_fighter_brawler"@,
        17 => "female_fighter_grappler"@,
        18 => "male_gunner_ranger"@,
        19 => "male_gunner_launcher"@,
        20 => "male_gunner_mechanic"@,
        21 => "male_gunner_spitfire"@,
        22 => "male_gunner_blitz"@,
        23 => "female_gunner_ranger"@,
        24 => "female_gunner_launcher"@,
        25 => "female_gunner_mechanic"@,
        26 => "female_gunner_spitfire"@,
        27 => "female_gunner_paramedic"@,
        28 => "male_mage_elemental_bomber"@,
        29 => "male_mage_glacial_master"@,
        30 => "male_mage_blood_mage"@,
        31 => "male_mage_swift_master"@,
        32 => "male_mage_dimension_walker"@,
        33 => "female_mage_elementalist"@,
        34 => "female_mage_summoner"@,
        35 => "female_mage_battle_mage"@,
        36 => "female_mage_witch"@,
        37 => "female_mage_enchantress"@,
        38 => "male_priest_crusader"@,
        39 => "male_priest_monk"@,
        40 => "male_priest_exorcist"@,
        41 => "male_priest_avenger"@,
        42 => "female_priest_crusader"@,
        43 => "female_priest_inquisitor"@,
        44 => "female_priest_shaman"@,
        45 => "female_priest_mistress"@,
        46 => "female_thief_rogue"@,
        47 => "female_thief_necromancer"@,
        48 => "female_thief_kunoichi"@,
        49 => "female_thief_shadow_dancer"@,
        50 => "female_knight_elven_knight"@,
        51 => "female_knight_chaos"@,
        52 => "female_knight_lightbringer"@,
        53 => "female_knight_dragon_knight"@,
        54 => "male_demonic_lancer_vanguard"@,
        55 => "male_demonic_lancer_skirmisher"@,
        56 => "male_demonic_lancer_dragoon"@,
        57 => "male_demonic_lancer_impaler"@,
        58 => "male_agent_secret_agent"@,
        59 => "male_agent_troubleshooter"@,
        60 => "male_agent_hitman"@,
        61 => "male_agent_specialist"@,
        62 => "female_archer_muse"@,
        63 => "female_archer_traveler"@,
        64 => "female_archer_hunter"@,
        65 => "female_archer_vigilante"@,
        66 => "female_archer_chimera"@,
        67 => "male_dark_knight"@,
        68 => "female_creator"@,
        _ => Seq::empty(),
    }
}

/// Display name of the class with detection index `i`.
pub open spec fn class_name_at(i: u16) -> Seq<char> {
    match i {
        0 => "剑魂"@,
        1 => "鬼泣"@,
        2 => "狂战士"@,
        3 => "阿修罗"@,
        4 => "剑影"@,
        5 => "驭剑士"@,
        6 => "契魔者"@,
        7 => "流浪武士"@,
        8 => "暗殿骑士"@,
        9 => "刃影"@,
        10 => "气功师(男)"@,
        11 => "散打(男)"@,
        12 => "街霸(男)"@,
        13 => "柔道家(男)"@,
        14 => "气功师(女)"@,
        15 => "散打(女)"@,
        16 => "街霸(女)"@,
        17 => "柔道家(女)"@,
        18 => "漫游枪手(男)"@,
        19 => "枪炮师(男)"@,
        20 => "机械师(男)"@,
        21 => "弹药专家(男)"@,
        22 => "合金战士"@,
        23 => "漫游枪手(女)"@,
        24 => "枪炮师(女)"@,
        25 => "机械师(女)"@,
        26 => "弹药专家(女)"@,
        27 => "协战师"@,
        28 => "元素爆破师"@,
        29 => "冰结师"@,
        30 => "猩红法师"@,
        31 => "逐风者"@,
        32 => "次元行者"@,
        33 => "元素师"@,
        34 => "召唤师"@,
        35 => "战斗法师"@,
        36 => "魔道学者"@,
        37 => "小魔女"@,
        38 => "光明骑士(男)"@,
        39 => "蓝拳使者"@,
        40 => "驱魔师(男)"@,
        41 => "惩戒者"@,
        42 => "光明骑士(女)"@,
        43 => "正义审判者"@,
        44 => "驱魔师(女)"@,
        45 => "除恶者"@,
        46 => "暗星"@,
        47 => "黑夜术士"@,
        48 => "忍者"@,
        49 => "影舞者"@,
        50 => "精灵骑士"@,
        51 => "混沌魔灵"@,
        52 => "帕拉丁"@,
        53 => "龙骑士"@,
        54 => "征战者"@,
        55 => "决战者"@,
        56 => "狩猎者"@,
        57 => "暗枪士"@,
        58 => "暗刃"@,
        59 => "特工"@,
        60 => "战线佣兵"@,
        61 => "源能专家"@,
        62 => "缪斯"@,
        63 => "旅人"@,
        64 => "猎人"@,
        65 => "妖护使"@,
        66 => "奇美拉"@,
        67 => "黑暗武士"@,
        68 => "缔造者"@,
        _ => Seq::empty(),
    }
}

/// Name of category `c`.
pub open spec fn category_name_at(c: u16) -> Seq<char> {
    match c {
        0 => "鬼剑士(男)"@,
        1 => "鬼剑士(女)"@,
        2 => "格斗家(男)"@,
        3 => "格斗家(女)"@,
        4 => "神枪手(男)"@,
        5 => "神枪手(女)"@,
        6 => "魔法师(男)"@,
        7 => "魔法师(女)"@,
        8 => "光职者(男)"@,
        9 => "光职者(女)"@,
        10 => "暗夜使者"@,
        11 => "守护者"@,
        12 => "魔枪士"@,
        13 => "枪剑士"@,
        14 => "弓箭手"@,
        15 => "外传"@,
        _ => Seq::empty(),
    }
}

/// Detection index of the first class of category `c`.
pub open spec fn category_start(c: u16) -> u16 {
    match c {
        0 => 0,
        1 => 5,
        2 => 10,
        3 => 14,
        4 => 18,
        5 => 23,
        6 => 28,
        7 => 33,
        8 => 38,
        9 => 42,
        10 => 46,
        11 => 50,
        12 => 54,
        13 => 58,
        14 => 62,
        15 => 67,
        _ => CLASS_COUNT,
    }
}

/// Number of classes in category `c`.
pub open spec fn category_len(c: u16) -> u16 {
    match c {
        0 => 5,
        1 => 5,
        2 => 4,
        3 => 4,
        4 => 5,
        5 => 5,
        6 => 5,
        7 => 5,
        8 => 4,
        9 => 4,
        10 => 4,
        11 => 4,
        12 => 4,
        13 => 4,
        14 => 5,
        15 => 2,
        _ => 0,
    }
}

/// The class with detection index `i`.
pub fn class_info_at(i: u16) -> (r: ClassInfo)
    requires
        i < CLASS_COUNT,
    ensures
        r.id@ == class_id_at(i),
        r.name@ == class_name_at(i),
        r.detection_index == i,
{
    match i {
        0 => ClassInfo { id: "male_slayer_blade_master", name: "剑魂", detection_index: 0 },
        1 => ClassInfo { id: "male_slayer_soul_bender", name: "鬼泣", detection_index: 1 },
        2 => ClassInfo { id: "male_slayer_berserker", name: "狂战士", detection_index: 2 },
        3 => ClassInfo { id: "male_slayer_asura", name: "阿修罗", detection_index: 3 },
        4 => ClassInfo { id: "male_slayer_ghostblade", name: "剑影", detection_index: 4 },
        5 => ClassInfo { id: "female_slayer_sword_master", name: "驭剑士", detection_index: 5 },
        6 => ClassInfo { id: "female_slayer_demon_slayer", name: "契魔者", detection_index: 6 },
        7 => ClassInfo { id: "female_slayer_vagabond", name: "流浪武士", detection_index: 7 },
        8 => ClassInfo { id: "female_slayer_dark_templar", name: "暗殿骑士", detection_index: 8 },
        9 => ClassInfo { id: "female_slayer_spectre", name: "刃影", detection_index: 9 },
        10 => ClassInfo { id: "male_fighter_nen_master", name: "气功师(男)", detection_index: 10 },
        11 => ClassInfo { id: "male_fighter_striker", name: "散打(男)", detection_index: 11 },
        12 => ClassInfo { id: "male_fighter_brawler", name: "街霸(男)", detection_index: 12 },
        13 => ClassInfo { id: "male_fighter_grappler", name: "柔道家(男)", detection_index: 13 },
        14 => ClassInfo { id: "female_fighter_nen_master", name: "气功师(女)", detection_index: 14 },
        15 => ClassInfo { id: "female_fighter_striker", name: "散打(女)", detection_index: 15 },
        16 => ClassInfo { id: "female_fighter_brawler", name: "街霸(女)", detection_index: 16 },
        17 => ClassInfo { id: "female_fighter_grappler", name: "柔道家(女)", detection_index: 17 },
        18 => ClassInfo { id: "male_gunner_ranger", name: "漫游枪手(男)", detection_index: 18 },
        19 => ClassInfo { id: "male_gunner_launcher", name: "枪炮师(男)", detection_index: 19 },
        20 => ClassInfo { id: "male_gunner_mechanic", name: "机械师(男)", detection_index: 20 },
        21 => ClassInfo { id: "male_gunner_spitfire", name: "弹药专家(男)", detection_index: 21 },
        22 => ClassInfo { id: "male_gunner_blitz", name: "合金战士", detection_index: 22 },
        23 => ClassInfo { id: "female_gunner_ranger", name: "漫游枪手(女)", detection_index: 23 },
        24 => ClassInfo { id: "female_gunner_launcher", name: "枪炮师(女)", detection_index: 24 },
        25 => ClassInfo { id: "female_gunner_mechanic", name: "机械师(女)", detection_index: 25 },
        26 => ClassInfo { id: "female_gunner_spitfire", name: "弹药专家(女)", detection_index: 26 },
        27 => ClassInfo { id: "female_gunner_paramedic", name: "协战师", detection_index: 27 },
        28 => ClassInfo { id: "male_mage_elemental_bomber", name: "元素爆破师", detection_index: 28 },
        29 => ClassInfo { id: "male_mage_glacial_master", name: "冰结师", detection_index: 29 },
        30 => ClassInfo { id: "male_mage_blood_mage", name: "猩红法师", detection_index: 30 },
        31 => ClassInfo { id: "male_mage_swift_master", name: "逐风者", detection_index: 31 },
        32 => ClassInfo { id: "male_mage_dimension_walker", name: "次元行者", detection_index: 32 },
        33 => ClassInfo { id: "female_mage_elementalist", name: "元素师", detection_index: 33 },
        34 => ClassInfo { id: "female_mage_summoner", name: "召唤师", detection_index: 34 },
        35 => ClassInfo { id: "female_mage_battle_mage", name: "战斗法师", detection_index: 35 },
        36 => ClassInfo { id: "female_mage_witch", name: "魔道学者", detection_index: 36 },
        37 => ClassInfo { id: "female_mage_enchantress", name: "小魔女", detection_index: 37 },
        38 => ClassInfo { id: "male_priest_crusader", name: "光明骑士(男)", detection_index: 38 },
        39 => ClassInfo { id: "male_priest_monk", name: "蓝拳使者", detection_index: 39 },
        40 => ClassInfo { id: "male_priest_exorcist", name: "驱魔师(男)", detection_index: 40 },
        41 => ClassInfo { id: "male_priest_avenger", name: "惩戒者", detection_index: 41 },
        42 => ClassInfo { id: "female_priest_crusader", name: "光明骑士(女)", detection_index: 42 },
        43 => ClassInfo { id: "female_priest_inquisitor", name: "正义审判者", detection_index: 43 },
        44 => ClassInfo { id: "female_priest_shaman", name: "驱魔师(女)", detection_index: 44 },
        45 => ClassInfo { id: "female_priest_mistress", name: "除恶者", detection_index: 45 },
        46 => ClassInfo { id: "female_thief_rogue", name: "暗星", detection_index: 46 },
        47 => ClassInfo { id: "female_thief_necromancer", name: "黑夜术士", detection_index: 47 },
        48 => ClassInfo { id: "female_thief_kunoichi", name: "忍者", detection_index: 48 },
        49 => ClassInfo { id: "female_thief_shadow_dancer", name: "影舞者", detection_index: 49 },
        50 => ClassInfo { id: "female_knight_elven_knight", name: "精灵骑士", detection_index: 50 },
        51 => ClassInfo { id: "female_knight_chaos", name: "混沌魔灵", detection_index: 51 },
        52 => ClassInfo { id: "female_knight_lightbringer", name: "帕拉丁", detection_index: 52 },
        53 => ClassInfo { id: "female_knight_dragon_knight", name: "龙骑士", detection_index: 53 },
        54 => ClassInfo { id: "male_demonic_lancer_vanguard", name: "征战者", detection_index: 54 },
        55 => ClassInfo { id: "male_demonic_lancer_skirmisher", name: "决战者", detection_index: 55 },
        56 => ClassInfo { id: "male_demonic_lancer_dragoon", name: "狩猎者", detection_index: 56 },
        57 => ClassInfo { id: "male_demonic_lancer_impaler", name: "暗枪士", detection_index: 57 },
        58 => ClassInfo { id: "male_agent_secret_agent", name: "暗刃", detection_index: 58 },
        59 => ClassInfo { id: "male_agent_troubleshooter", name: "特工", detection_index: 59 },
        60 => ClassInfo { id: "male_agent_hitman", name: "战线佣兵", detection_index: 60 },
        61 => ClassInfo { id: "male_agent_specialist", name: "源能专家", detection_index: 61 },
        62 => ClassInfo { id: "female_archer_muse", name: "缪斯", detection_index: 62 },
        63 => ClassInfo { id: "female_archer_traveler", name: "旅人", detection_index: 63 },
        64 => ClassInfo { id: "female_archer_hunter", name: "猎人", detection_index: 64 },
        65 => ClassInfo { id: "female_archer_vigilante", name: "妖护使", detection_index: 65 },
        66 => ClassInfo { id: "female_archer_chimera", name: "奇美拉", detection_index: 66 },
        67 => ClassInfo { id: "male_dark_knight", name: "黑暗武士", detection_index: 67 },
        _ => ClassInfo { id: "female_creator", name: "缔造者", detection_index: 68 },
    }
}

/// Name, first detection index and size of category `c`.
fn category_at(c: u16) -> (r: (&'static str, u16, u16))
    requires
        c < CATEGORY_COUNT,
    ensures
        r.0@ == category_name_at(c),
        r.1 == category_start(c),
        r.2 == category_len(c),
{
    match c {
        0 => ("鬼剑士(男)", 0, 5),
        1 => ("鬼剑士(女)", 5, 5),
        2 => ("格斗家(男)", 10, 4),
        3 => ("格斗家(女)", 14, 4),
        4 => ("神枪手(男)", 18, 5),
        5 => ("神枪手(女)", 23, 5),
        6 => ("魔法师(男)", 28, 5),
        7 => ("魔法师(女)", 33, 5),
        8 => ("光职者(男)", 38, 4),
        9 => ("光职者(女)", 42, 4),
        10 => ("暗夜使者", 46, 4),
        11 => ("守护者", 50, 4),
        12 => ("魔枪士", 54, 4),
        13 => ("枪剑士", 58, 4),
        14 => ("弓箭手", 62, 5),
        _ => ("外传", 67, 2),
    }
}

/// The categories lie side by side and cover the class table in order.
pub proof fn lemma_categories_tile(c: u16)
    requires
        c < CATEGORY_COUNT,
    ensures
        category_start(c) + category_len(c) <= CLASS_COUNT,
        c + 1 < CATEGORY_COUNT ==> category_start((c + 1) as u16) == category_start(c)
            + category_len(c),
        c + 1 == CATEGORY_COUNT ==> category_start(c) + category_len(c) == CLASS_COUNT,
        category_start(0) == 0,
{
}

/// Every class in table order.
pub fn class_infos() -> (r: Vec<ClassInfo>)
    ensures
        r@.len() == CLASS_COUNT,
        forall|i: int|
            0 <= i < r@.len() ==> (#[trigger] r@[i]).id@ == class_id_at(i as u16) && r@[i].name@
                == class_name_at(i as u16) && r@[i].detection_index == i,
        forall|i: int, j: int|
            0 <= i < r@.len() && 0 <= j < r@.len() && i != j ==> r@[i].detection_index
                != r@[j].detection_index,
{
    let mut r: Vec<ClassInfo> = Vec::new();
    let mut i: u16 = 0;
    while i < CLASS_COUNT
        invariant
            i <= CLASS_COUNT,
            r@.len() == i,
            forall|k: int|
                0 <= k < i ==> (#[trigger] r@[k]).id@ == class_id_at(k as u16) && r@[k].name@
                    == class_name_at(k as u16) && r@[k].detection_index == k,
        decreases CLASS_COUNT - i,
    {
        r.push(class_info_at(i));
        i = i + 1;
    }
    r
}

/// The categories in order, each with its classes.
pub fn class_categories() -> (r: Vec<ClassCategory>)
    ensures
        r@.len() == CATEGORY_COUNT,
        forall|c: int|
            0 <= c < r@.len() ==> (#[trigger] r@[c]).name@ == category_name_at(c as u16)
                && r@[c].classes@.len() == category_len(c as u16) && forall|k: int|
                0 <= k < r@[c].classes@.len() ==> {
                    let i = (category_start(c as u16) + k) as u16;
                    &&& (#[trigger] r@[c].classes@[k]).id@ == class_id_at(i)
                    &&& r@[c].classes@[k].name@ == class_name_at(i)
                    &&& r@[c].classes@[k].detection_index == i
                },
{
    let mut r: Vec<ClassCategory> = Vec::new();
    let mut c: u16 = 0;
    while c < CATEGORY_COUNT
        invariant
            c <= CATEGORY_COUNT,
            r@.len() == c,
            forall|d: int|
                0 <= d < c ==> (#[trigger] r@[d]).name@ == category_name_at(d as u16)
                    && r@[d].classes@.len() == category_len(d as u16) && forall|k: int|
                    0 <= k < r@[d].classes@.len() ==> {
                        let i = (category_start(d as u16) + k) as u16;
                        &&& (#[trigger] r@[d].classes@[k]).id@ == class_id_at(i)
                        &&& r@[d].classes@[k].name@ == class_name_at(i)
                        &&& r@[d].classes@[k].detection_index == i
                    },
        decreases CATEGORY_COUNT - c,
    {
        let (name, start, len) = category_at(c);
        proof {
            lemma_categories_tile(c);
        }
        let mut classes: Vec<ClassInfo> = Vec::new();
        let mut k: u16 = 0;
        while k < len
            invariant
                k <= len,
                start + len <= CLASS_COUNT,
                classes@.len() == k,
                forall|t: int|
                    0 <= t < k ==> {
                        let i = (start + t) as u16;
                        &&& (#[trigger] classes@[t]).id@ == class_id_at(i)
                        &&& classes@[t].name@ == class_name_at(i)
                        &&& classes@[t].detection_index == i
                    },
            decreases len - k,
        {
            classes.push(class_info_at(start + k));
            k = k + 1;
        }
        r.push(ClassCategory { name, classes });
        c = c + 1;
    }
    r
}

/// The id of the class the detector reports as `d`.
pub fn class_id_by_detection_index(detection_index: u16) -> (r: Option<&'static str>)
    ensures
        match r {
            Some(id) => detection_index < CLASS_COUNT && id@ == class_id_at(detection_index),
            None => detection_index >= CLASS_COUNT,
        },
{
    if detection_index < CLASS_COUNT {
        Some(class_info_at(detection_index).id)
    } else {
        None
    }
}

/// The first detection index at or after `i` whose class has id `id`.
pub open spec fn class_index_from(id: Seq<char>, i: nat) -> Option<nat>
    decreases CLASS_COUNT - i,
{
    if i >= CLASS_COUNT {
        None
    } else if class_id_at(i as u16) == id {
        Some(i)
    } else {
        class_index_from(id, i + 1)
    }
}

/// The display name of the class with id `id`.
pub open spec fn class_name_of(id: Seq<char>) -> Option<Seq<char>> {
    match class_index_from(id, 0) {
        Some(i) => Some(class_name_at(i as u16)),
        None => None,
    }
}

pub proof fn lemma_class_index_from(id: Seq<char>, i: nat)
    requires
        i <= CLASS_COUNT,
    ensures
        match class_index_from(id, i) {
            Some(k) => i <= k < CLASS_COUNT && class_id_at(k as u16) == id,
            None => forall|k: u16| i <= k < CLASS_COUNT ==> #[trigger] class_id_at(k) != id,
        },
    decreases CLASS_COUNT - i,
{
    if i < CLASS_COUNT && class_id_at(i as u16) != id {
        lemma_class_index_from(id, i + 1);
    }
}

/// The display name of the class with id `class_id`.
pub fn class_name_by_id(class_id: &str) -> (r: Option<&'static str>)
    ensures
        match class_name_of(class_id@) {
            Some(n) => r matches Some(name) && name@ == n,
            None => r is None,
        },
{
    let mut i: u16 = 0;
    while i < CLASS_COUNT
        invariant
            i <= CLASS_COUNT,
            class_index_from(class_id@, 0) == class_index_from(class_id@, i as nat),
        decreases CLASS_COUNT - i,
    {
        let info = class_info_at(i);
        if text_eq(info.id, class_id) {
            return Some(info.name);
        }
        i = i + 1;
    }
    None
}

} // verus!
