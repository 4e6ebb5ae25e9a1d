//! Menu data: the options, sections and items a menu widget is built from.
//!
//! These are plain data carriers; the widget chrome that renders them is a
//! separate collaborator. A menu is laid out from sections, each holding
//! items; an item with an empty description stands for a horizontal
//! separator.

use vstd::prelude::*;
use crate::channel::NcChannelPair;

verus! {

/// Places the menu along the bottom of its plane instead of the top.
pub const NCMENU_OPTION_BOTTOM: u64 = 0x1;

/// Keeps the menu hidden until it is activated.
pub const NCMENU_OPTION_HIDING: u64 = 0x2;

/// A keypress: a codepoint with its modifiers.
#[derive(Debug, Clone, Copy, PartialEq, Eq, Structural)]
pub struct NcInput {
    /// The unicode codepoint of the key.
    pub id: u32,
    /// Whether alt was held.
    pub alt: bool,
    /// Whether shift was held.
    pub shift: bool,
    /// Whether ctrl was held.
    pub ctrl: bool,
}

impl NcInput {
    /// Builds a keypress from a codepoint and its modifiers.
    pub fn new(id: u32, alt: bool, shift: bool, ctrl: bool) -> (input: Self)
        ensures
            input == (NcInput { id, alt, shift, ctrl }),
    {
        NcInput { id, alt, shift, ctrl }
    }
}

/// One entry of a menu section: a description and a shortcut. An empty
/// description stands for a horizontal separator.
#[derive(Debug, PartialEq, Eq)]
pub struct NcMenuItem {
    /// The item's description; empty for a horizontal separator.
    pub desc: String,
    /// The item's shortcut; shortcuts should be distinct across a menu.
    pub shortcut: NcInput,
}

impl NcMenuItem {
    /// Builds a menu item from its description and shortcut.
    pub fn new(desc: String, shortcut: NcInput) -> (item: Self)
        ensures
            item.desc == desc,
            item.shortcut == shortcut,
    {
        NcMenuItem { desc, shortcut }
    }
}

/// One section of a menu: a name, its items, and the shortcut that opens
/// it (underlined where it occurs in the name).
#[derive(Debug, PartialEq, Eq)]
pub struct NcMenuSection {
    /// The section's name.
    pub name: String,
    /// The section's items, in display order.
    pub items: Vec<NcMenuItem>,
    /// The shortcut that opens the section.
    pub shortcut: NcInput,
}

impl NcMenuSection {
    /// Builds a menu section from its name, items and shortcut.
    pub fn new(name: String, items: Vec<NcMenuItem>, shortcut: NcInput) -> (section: Self)
        ensures
            section.name == name,
            section.items == items,
            section.shortcut == shortcut,
    {
        NcMenuSection { name, items, shortcut }
    }
}

/// Everything a menu is created from: its sections, the styling of its
/// header and sections, and its option flags.
#[derive(Debug, PartialEq, Eq)]
pub struct NcMenuOptions {
    /// The menu's sections, in display order.
    pub sections: Vec<NcMenuSection>,
    /// The channel pair styling the menu's header.
    pub headerchannels: NcChannelPair,
    /// The channel pair styling the menu's sections.
    pub sectionchannels: NcChannelPair,
    /// A word of option flags.
    pub flags: u64,
}

impl NcMenuOptions {
    /// Builds empty menu options: no sections, no styling, no flags.
    pub fn new() -> (options: Self)
        ensures
            options.sections@ == Seq::<NcMenuSection>::empty(),
            options.headerchannels == 0,
            options.sectionchannels == 0,
            options.flags == 0,
    {
        Self::with_options(Vec::new(), 0, 0, 0)
    }

    /// Builds menu options from sections, header and section styling, and
    /// option flags.
    pub fn with_options(
        sections: Vec<NcMenuSection>,
        headerc: NcChannelPair,
        sectionc: NcChannelPair,
        flags: u64,
    ) -> (options: Self)
        ensures
            options.sections == sections,
            options.headerchannels == headerc,
            options.sectionchannels == sectionc,
            options.flags == flags,
    {
        NcMenuOptions {
            sections,
            headerchannels: headerc,
            sectionchannels: sectionc,
            flags,
        }
    }
}

} // verus!
