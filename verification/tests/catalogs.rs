use spotifast::catalogs::catalog;
use spotifast::i18n::{plural_form, Locale};

const LOCALES: [Locale; 14] = [
    Locale::English,
    Locale::German,
    Locale::Spanish,
    Locale::Dutch,
    Locale::PortugueseBrazil,
    Locale::PortuguesePortugal,
    Locale::French,
    Locale::Swedish,
    Locale::Polish,
    Locale::Russian,
    Locale::Italian,
    Locale::Japanese,
    Locale::ChineseSimplified,
    Locale::ChineseTraditional,
];

fn named_placeholders(text: &str) -> Vec<&str> {
    let mut names: Vec<_> = text
        .split('{')
        .skip(1)
        .filter_map(|rest| rest.split_once('}').map(|(name, _)| name))
        .collect();
    names.sort_unstable();
    names
}

fn plural_forms(locale: Locale) -> usize {
    (0..200u32).map(|n| plural_form(locale, n)).max().unwrap() + 1
}

#[test]
fn catalogs_are_complete_and_keep_their_placeholders() {
    assert!(catalog(Locale::English).is_empty());
    for locale in LOCALES {
        let forms = plural_forms(locale);
        for message in catalog(locale) {
            let all = [message.forms.0, message.forms.1, message.forms.2];
            let used = if message.msgid_plural.is_some() { forms } else { 1 };
            for (index, form) in all.iter().enumerate() {
                if index < used {
                    assert!(!form.is_empty(), "{locale:?}: {}", message.msgid);
                    assert_eq!(
                        named_placeholders(form),
                        named_placeholders(message.msgid),
                        "{locale:?}: {}",
                        message.msgid
                    );
                } else {
                    assert!(form.is_empty(), "{locale:?}: {}", message.msgid);
                }
            }
            if let Some(plural) = message.msgid_plural {
                assert_eq!(named_placeholders(plural), named_placeholders(message.msgid));
            }
        }
    }
}

#[test]
fn each_language_has_its_number_of_plural_forms() {
    for (locale, forms) in [
        (Locale::English, 2),
        (Locale::German, 2),
        (Locale::French, 2),
        (Locale::Polish, 3),
        (Locale::Russian, 3),
        (Locale::Japanese, 1),
        (Locale::ChineseTraditional, 1),
    ] {
        assert_eq!(plural_forms(locale), forms, "{locale:?}");
    }
}
