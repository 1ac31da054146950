use spotifast::fonts::{
    beats, consider_face, faces_to_read, family_rank, is_font_file, ranks_above, reads_directory_at,
};

#[test]
fn only_font_files_are_probed() {
    assert!(is_font_file("/x/NotoSans.ttf"));
    assert!(is_font_file("/x/NotoSansCJK.TTC"));
    assert!(is_font_file("/x/PingFang.otf"));
    assert!(!is_font_file("/x/fonts.dir"));
    assert!(!is_font_file("/x/README"));
}

#[test]
fn only_the_last_part_of_the_path_counts() {
    assert!(is_font_file("Arial.OtC"));
    assert!(!is_font_file("/fonts.ttf/README"));
    assert!(!is_font_file("/x/.ttf"));
    assert!(is_font_file("/x/..ttf"));
    assert!(!is_font_file("/x/font.ttf2"));
    assert!(!is_font_file(""));
}

#[test]
fn a_path_that_ends_in_separators_names_its_last_part() {
    assert!(is_font_file("/x/Arial.ttf/"));
    assert!(is_font_file("/x/Arial.ttf//./"));
    assert!(is_font_file("/x/Arial.ttf/."));
    assert!(!is_font_file("/"));
    assert!(!is_font_file("."));
    assert!(!is_font_file("/x/.ttf/"));
}

#[test]
fn the_walk_stops_four_levels_down() {
    assert!(reads_directory_at(0));
    assert!(reads_directory_at(3));
    assert!(!reads_directory_at(4));
    assert!(!reads_directory_at(usize::MAX));
}

#[test]
fn a_collection_is_read_up_to_sixty_four_faces() {
    assert_eq!(faces_to_read(0), 0);
    assert_eq!(faces_to_read(12), 12);
    assert_eq!(faces_to_read(64), 64);
    assert_eq!(faces_to_read(4_000_000_000), 64);
}

const WANTED: [&str; 7] = [
    "arial",
    "liberation sans",
    "arimo",
    "helvetica",
    "helvetica neue",
    "nimbus sans",
    "dejavu sans",
];

#[test]
fn families_are_ranked_by_their_lower_case_name() {
    assert_eq!(family_rank("Arial", &WANTED), Some(0));
    assert_eq!(family_rank("DejaVu Sans", &WANTED), Some(6));
    assert_eq!(family_rank("Helvetica Neue", &WANTED), Some(4));
    assert_eq!(family_rank("Arial Black", &WANTED), None);
    assert_eq!(family_rank("", &WANTED), None);
    assert_eq!(family_rank("arial", &[]), None);
}

#[test]
fn a_better_family_beats_an_earlier_file() {
    assert!(beats(0, 1, false));
    assert!(!beats(2, 1, true));
    assert!(beats(1, 1, true));
    assert!(!beats(1, 1, false));
    let held = Some((1, "/usr/share/fonts/b.ttf".to_string(), 0));
    assert!(ranks_above(0, "/usr/share/fonts/z.ttf", &held));
    assert!(ranks_above(1, "/usr/share/fonts/a.ttf", &held));
    assert!(!ranks_above(1, "/usr/share/fonts/c.ttf", &held));
    assert!(!ranks_above(1, "/usr/share/fonts/b.ttf", &held));
    assert!(!ranks_above(2, "/usr/share/fonts/a.ttf", &held));
    assert!(ranks_above(6, "/z", &None));
}

#[test]
fn files_are_ordered_part_by_part() {
    // As paths, "a/b" comes before "a-b" though '-' sorts before '/'.
    let held = Some((0, "/fonts/a-b.ttf".to_string(), 0));
    assert!(ranks_above(0, "/fonts/a/b.ttf", &held));
}

#[test]
fn the_search_keeps_the_most_wanted_regular_face() {
    let mut best = None;
    consider_face("DejaVu Sans", true, &WANTED, "/f/dejavu.ttf", 0, &mut best);
    assert_eq!(best, Some((6, "/f/dejavu.ttf".to_string(), 0)));
    consider_face("Comic Sans", true, &WANTED, "/f/comic.ttf", 0, &mut best);
    assert_eq!(best, Some((6, "/f/dejavu.ttf".to_string(), 0)));
    consider_face("Arial", false, &WANTED, "/f/arial-bold.ttf", 0, &mut best);
    assert_eq!(best, Some((6, "/f/dejavu.ttf".to_string(), 0)));
    consider_face("Liberation Sans", true, &WANTED, "/f/liberation.ttc", 2, &mut best);
    assert_eq!(best, Some((1, "/f/liberation.ttc".to_string(), 2)));
    consider_face("Liberation Sans", true, &WANTED, "/f/zz.ttf", 0, &mut best);
    assert_eq!(best, Some((1, "/f/liberation.ttc".to_string(), 2)));
    consider_face("Liberation Sans", true, &WANTED, "/f/aa.ttf", 0, &mut best);
    assert_eq!(best, Some((1, "/f/aa.ttf".to_string(), 0)));
    consider_face("ARIAL", true, &WANTED, "/g/arial.ttf", 0, &mut best);
    assert_eq!(best, Some((0, "/g/arial.ttf".to_string(), 0)));
}
