use nccore::cell::{NcCell, NcEgc};
use nccore::menu::{NcInput, NcMenuItem, NcMenuOptions, NcMenuSection, NCMENU_OPTION_BOTTOM};

#[test]
fn constructors() {
    let _c1 = NcCell::new();

    let _c2 = NcCell::with_7bitchar('C');

    let _c3 = NcCell::with_all('c', 0, 0);
}

#[test]
fn cell_constructor_fields() {
    let blank = NcCell::new();
    assert_eq!(blank.gcluster, NcEgc::Char('\0'));
    assert_eq!(blank.stylemask, 0);
    assert_eq!(blank.channels, 0);

    let styled = NcCell::with_all('q', 7, 42);
    assert_eq!(styled.gcluster, NcEgc::Char('q'));
    assert_eq!(styled.stylemask, 7);
    assert_eq!(styled.channels, 42);

    let cluster = NcCell::with_cluster(String::from("ab"), 1, 2);
    assert_eq!(cluster.gcluster, NcEgc::Cluster(String::from("ab")));
    assert_eq!(cluster.stylemask, 1);
    assert_eq!(cluster.channels, 2);
}

#[test]
fn cell_clone_copies_exactly() {
    let cluster = NcCell::with_cluster(String::from("xyz"), 3, 9);
    let copy = cluster.clone();
    assert_eq!(copy, cluster);

    let simple = NcCell::with_7bitchar('C');
    assert_eq!(simple.clone(), simple);
}

#[test]
fn menu_options_empty() {
    let options = NcMenuOptions::new();
    assert!(options.sections.is_empty());
    assert_eq!(options.headerchannels, 0);
    assert_eq!(options.sectionchannels, 0);
    assert_eq!(options.flags, 0);
}

#[test]
fn menu_constructors_keep_fields() {
    let shortcut = NcInput::new('o' as u32, true, false, false);
    let item = NcMenuItem::new(String::from("open"), shortcut);
    assert_eq!(item.desc, "open");
    assert_eq!(item.shortcut, shortcut);

    let section_shortcut = NcInput::new('f' as u32, false, false, true);
    let section = NcMenuSection::new(String::from("file"), vec![item], section_shortcut);
    assert_eq!(section.name, "file");
    assert_eq!(section.items.len(), 1);
    assert_eq!(section.items[0].desc, "open");
    assert_eq!(section.shortcut, section_shortcut);

    let options = NcMenuOptions::with_options(vec![section], 5, 6, NCMENU_OPTION_BOTTOM);
    assert_eq!(options.sections.len(), 1);
    assert_eq!(options.sections[0].name, "file");
    assert_eq!(options.headerchannels, 5);
    assert_eq!(options.sectionchannels, 6);
    assert_eq!(options.flags, NCMENU_OPTION_BOTTOM);
}
