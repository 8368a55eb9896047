//! Entries: the selectable resources that cycles hold, and the small closed
//! enumerations that describe them and the events around them.

use vstd::prelude::*;

verus! {

/// What an entry looks like, and so almost everything about how it is used.
#[derive(Debug, Clone, Copy, PartialEq, Eq, Structural)]
pub enum EntryIcon {
    Alteration,
    ArmorClothing,
    ArmorHeavy,
    ArmorLight,
    Arrow,
    AxeOneHanded,
    AxeTwoHanded,
    Bow,
    Claw,
    Conjuration,
    Crossbow,
    Dagger,
    DefaultPotion,
    DestructionFire,
    DestructionFrost,
    DestructionShock,
    Destruction,
    Food,
    Halberd,
    HandToHand,
    IconDefault,
    Illusion,
    Katana,
    Mace,
    Pike,
    PoisonDefault,
    PotionFireResist,
    PotionFrostResist,
    PotionHealth,
    PotionMagicka,
    PotionShockResist,
    PotionStamina,
    Power,
    QuarterStaff,
    Rapier,
    Restoration,
    Scroll,
    Shield,
    Shout,
    SpellDefault,
    Staff,
    SwordOneHanded,
    SwordTwoHanded,
    Torch,
    Whip,
}

/// Number of distinct icon kinds; tags run from zero up to this bound.
pub const ICON_KIND_COUNT: u8 = 45;

/// The tag that stands for an icon kind in persisted data.
pub open spec fn icon_tag(k: EntryIcon) -> u8 {
    match k {
        EntryIcon::Alteration => 0,
        EntryIcon::ArmorClothing => 1,
        EntryIcon::ArmorHeavy => 2,
        EntryIcon::ArmorLight => 3,
        EntryIcon::Arrow => 4,
        EntryIcon::AxeOneHanded => 5,
        EntryIcon::AxeTwoHanded => 6,
        EntryIcon::Bow => 7,
        EntryIcon::Claw => 8,
        EntryIcon::Conjuration => 9,
        EntryIcon::Crossbow => 10,
        EntryIcon::Dagger => 11,
        EntryIcon::DefaultPotion => 12,
        EntryIcon::DestructionFire => 13,
        EntryIcon::DestructionFrost => 14,
        EntryIcon::DestructionShock => 15,
        EntryIcon::Destruction => 16,
        EntryIcon::Food => 17,
        EntryIcon::Halberd => 18,
        EntryIcon::HandToHand => 19,
        EntryIcon::IconDefault => 20,
        EntryIcon::Illusion => 21,
        EntryIcon::Katana => 22,
        EntryIcon::Mace => 23,
        EntryIcon::Pike => 24,
        EntryIcon::PoisonDefault => 25,
        EntryIcon::PotionFireResist => 26,
        EntryIcon::PotionFrostResist => 27,
        EntryIcon::PotionHealth => 28,
        EntryIcon::PotionMagicka => 29,
        EntryIcon::PotionShockResist => 30,
        EntryIcon::PotionStamina => 31,
        EntryIcon::Power => 32,
        EntryIcon::QuarterStaff => 33,
        EntryIcon::Rapier => 34,
        EntryIcon::Restoration => 35,
        EntryIcon::Scroll => 36,
        EntryIcon::Shield => 37,
        EntryIcon::Shout => 38,
        EntryIcon::SpellDefault => 39,
        EntryIcon::Staff => 40,
        EntryIcon::SwordOneHanded => 41,
        EntryIcon::SwordTwoHanded => 42,
        EntryIcon::Torch => 43,
        EntryIcon::Whip => 44,
    }
}

/// The icon kind that a persisted tag stands for, if any.
pub open spec fn icon_of_tag(t: u8) -> Option<EntryIcon> {
    if t == 0 {
        Some(EntryIcon::Alteration)
    } else if t == 1 {
        Some(EntryIcon::ArmorClothing)
    } else if t == 2 {
        Some(EntryIcon::ArmorHeavy)
    } else if t == 3 {
        Some(EntryIcon::ArmorLight)
    } else if t == 4 {
        Some(EntryIcon::Arrow)
    } else if t == 5 {
        Some(EntryIcon::AxeOneHanded)
    } else if t == 6 {
        Some(EntryIcon::AxeTwoHanded)
    } else if t == 7 {
        Some(EntryIcon::Bow)
    } else if t == 8 {
        Some(EntryIcon::Claw)
    } else if t == 9 {
        Some(EntryIcon::Conjuration)
    } else if t == 10 {
        Some(EntryIcon::Crossbow)
    } else if t == 11 {
        Some(EntryIcon::Dagger)
    } else if t == 12 {
        Some(EntryIcon::DefaultPotion)
    } else if t == 13 {
        Some(EntryIcon::DestructionFire)
    } else if t == 14 {
        Some(EntryIcon::DestructionFrost)
    } else if t == 15 {
        Some(EntryIcon::DestructionShock)
    } else if t == 16 {
        Some(EntryIcon::Destruction)
    } else if t == 17 {
        Some(EntryIcon::Food)
    } else if t == 18 {
        Some(EntryIcon::Halberd)
    } else if t == 19 {
        Some(EntryIcon::HandToHand)
    } else if t == 20 {
        Some(EntryIcon::IconDefault)
    } else if t == 21 {
        Some(EntryIcon::Illusion)
    } else if t == 22 {
        Some(EntryIcon::Katana)
    } else if t == 23 {
        Some(EntryIcon::Mace)
    } else if t == 24 {
        Some(EntryIcon::Pike)
    } else if t == 25 {
        Some(EntryIcon::PoisonDefault)
    } else if t == 26 {
        Some(EntryIcon::PotionFireResist)
    } else if t == 27 {
        Some(EntryIcon::PotionFrostResist)
    } else if t == 28 {
        Some(EntryIcon::PotionHealth)
    } else if t == 29 {
        Some(EntryIcon::PotionMagicka)
    } else if t == 30 {
        Some(EntryIcon::PotionShockResist)
    } else if t == 31 {
        Some(EntryIcon::PotionStamina)
    } else if t == 32 {
        Some(EntryIcon::Power)
    } else if t == 33 {
        Some(EntryIcon::QuarterStaff)
    } else if t == 34 {
        Some(EntryIcon::Rapier)
    } else if t == 35 {
        Some(EntryIcon::Restoration)
    } else if t == 36 {
        Some(EntryIcon::Scroll)
    } else if t == 37 {
        Some(EntryIcon::Shield)
    } else if t == 38 {
        Some(EntryIcon::Shout)
    } else if t == 39 {
        Some(EntryIcon::SpellDefault)
    } else if t == 40 {
        Some(EntryIcon::Staff)
    } else if t == 41 {
        Some(EntryIcon::SwordOneHanded)
    } else if t == 42 {
        Some(EntryIcon::SwordTwoHanded)
    } else if t == 43 {
        Some(EntryIcon::Torch)
    } else if t == 44 {
        Some(EntryIcon::Whip)
    } else {
        None
    }
}

/// Tags and kinds correspond one to one.
pub proof fn lemma_icon_tag_bijective(k: EntryIcon, t: u8)
    ensures
        icon_of_tag(icon_tag(k)) == Some(k),
        icon_tag(k) < ICON_KIND_COUNT,
        icon_of_tag(t) == Some(k) ==> icon_tag(k) == t,
        icon_of_tag(t) is Some <==> t < ICON_KIND_COUNT,
{
}

impl EntryIcon {
    /// The persisted tag of this kind.
    pub fn tag(&self) -> (r: u8)
        ensures
            r == icon_tag(*self),
    {
        match self {
            EntryIcon::Alteration => 0,
            EntryIcon::ArmorClothing => 1,
            EntryIcon::ArmorHeavy => 2,
            EntryIcon::ArmorLight => 3,
            EntryIcon::Arrow => 4,
            EntryIcon::AxeOneHanded => 5,
            EntryIcon::AxeTwoHanded => 6,
            EntryIcon::Bow => 7,
            EntryIcon::Claw => 8,
            EntryIcon::Conjuration => 9,
            EntryIcon::Crossbow => 10,
            EntryIcon::Dagger => 11,
            EntryIcon::DefaultPotion => 12,
            EntryIcon::DestructionFire => 13,
            EntryIcon::DestructionFrost => 14,
            EntryIcon::DestructionShock => 15,
            EntryIcon::Destruction => 16,
            EntryIcon::Food => 17,
            EntryIcon::Halberd => 18,
            EntryIcon::HandToHand => 19,
            EntryIcon::IconDefault => 20,
            EntryIcon::Illusion => 21,
            EntryIcon::Katana => 22,
            EntryIcon::Mace => 23,
            EntryIcon::Pike => 24,
            EntryIcon::PoisonDefault => 25,
            EntryIcon::PotionFireResist => 26,
            EntryIcon::PotionFrostResist => 27,
            EntryIcon::PotionHealth => 28,
            EntryIcon::PotionMagicka => 29,
            EntryIcon::PotionShockResist => 30,
            EntryIcon::PotionStamina => 31,
            EntryIcon::Power => 32,
            EntryIcon::QuarterStaff => 33,
            EntryIcon::Rapier => 34,
            EntryIcon::Restoration => 35,
            EntryIcon::Scroll => 36,
            EntryIcon::Shield => 37,
            EntryIcon::Shout => 38,
            EntryIcon::SpellDefault => 39,
            EntryIcon::Staff => 40,
            EntryIcon::SwordOneHanded => 41,
            EntryIcon::SwordTwoHanded => 42,
            EntryIcon::Torch => 43,
            EntryIcon::Whip => 44,
        }
    }

    /// The kind a persisted tag stands for; `None` for an unknown tag.
    pub fn from_tag(t: u8) -> (r: Option<EntryIcon>)
        ensures
            r == icon_of_tag(t),
    {
        match t {
            0 => Some(EntryIcon::Alteration),
            1 => Some(EntryIcon::ArmorClothing),
            2 => Some(EntryIcon::ArmorHeavy),
            3 => Some(EntryIcon::ArmorLight),
            4 => Some(EntryIcon::Arrow),
            5 => Some(EntryIcon::AxeOneHanded),
            6 => Some(EntryIcon::AxeTwoHanded),
            7 => Some(EntryIcon::Bow),
            8 => Some(EntryIcon::Claw),
            9 => Some(EntryIcon::Conjuration),
            10 => Some(EntryIcon::Crossbow),
            11 => Some(EntryIcon::Dagger),
            12 => Some(EntryIcon::DefaultPotion),
            13 => Some(EntryIcon::DestructionFire),
            14 => Some(EntryIcon::DestructionFrost),
            15 => Some(EntryIcon::DestructionShock),
            16 => Some(EntryIcon::Destruction),
            17 => Some(EntryIcon::Food),
            18 => Some(EntryIcon::Halberd),
            19 => Some(EntryIcon::HandToHand),
            20 => Some(EntryIcon::IconDefault),
            21 => Some(EntryIcon::Illusion),
            22 => Some(EntryIcon::Katana),
            23 => Some(EntryIcon::Mace),
            24 => Some(EntryIcon::Pike),
            25 => Some(EntryIcon::PoisonDefault),
            26 => Some(EntryIcon::PotionFireResist),
            27 => Some(EntryIcon::PotionFrostResist),
            28 => Some(EntryIcon::PotionHealth),
            29 => Some(EntryIcon::PotionMagicka),
            30 => Some(EntryIcon::PotionShockResist),
            31 => Some(EntryIcon::PotionStamina),
            32 => Some(EntryIcon::Power),
            33 => Some(EntryIcon::QuarterStaff),
            34 => Some(EntryIcon::Rapier),
            35 => Some(EntryIcon::Restoration),
            36 => Some(EntryIcon::Scroll),
            37 => Some(EntryIcon::Shield),
            38 => Some(EntryIcon::Shout),
            39 => Some(EntryIcon::SpellDefault),
            40 => Some(EntryIcon::Staff),
            41 => Some(EntryIcon::SwordOneHanded),
            42 => Some(EntryIcon::SwordTwoHanded),
            43 => Some(EntryIcon::Torch),
            44 => Some(EntryIcon::Whip),
            _ => None,
        }
    }
}

} // verus!
