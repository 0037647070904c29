use movie_metadata_capture::config::{NameRule, Uncensored};
use movie_metadata_capture::organize::{
    build_nfo, file_marks, folder_location_of, image_ext, image_names, is_uncensored,
};
use movie_metadata_capture::parser::Movie;

fn movie() -> Movie {
    Movie {
        number: "ABC-123".to_string(),
        title: "ABC-123 A long title".to_string(),
        studio: "Studio".to_string(),
        year: "2021".to_string(),
        outline: "Outline".to_string(),
        runtime: "120".to_string(),
        director: "Dir".to_string(),
        actor: vec![
            ("Ann".to_string(), "https://x.test/ann.png".to_string()),
            ("Bea".to_string(), String::new()),
        ],
        label: "Label".to_string(),
        tag: vec!["drama".to_string()],
        release: "2021-03-04".to_string(),
        cover: "https://x.test/c.jpeg".to_string(),
        website: "https://x.test/d".to_string(),
        series: "Series".to_string(),
        user_rating: "4.5".to_string(),
        max_user_rating: "5".to_string(),
        user_votes: "10".to_string(),
        ..Default::default()
    }
}

fn rule(location: &str, naming: &str, max: usize) -> NameRule {
    NameRule {
        location_rule: location.to_string(),
        naming_rule: naming.to_string(),
        max_title_len: max,
        image_naming_with_number: false,
    }
}

#[test]
fn image_extension_is_the_first_known_suffix() {
    assert_eq!(image_ext(Some("https://x.test/a.jpg")), ".jpg");
    assert_eq!(image_ext(Some("https://x.test/a.jpeg")), ".jpeg");
    assert_eq!(image_ext(Some("a.gif")), ".gif");
    assert_eq!(image_ext(Some("a.png")), ".png");
    assert_eq!(image_ext(Some("a.bmp")), ".bmp");
    assert_eq!(image_ext(Some("a.webp")), ".jpg");
    assert_eq!(image_ext(Some("")), ".jpg");
    assert_eq!(image_ext(Some("a.PNG")), ".jpg");
    assert_eq!(image_ext(None), ".jpg");
}

#[test]
fn uncensored_by_shape_or_by_list() {
    let config = Uncensored { uncensored_prefix: "PT-, S2M ,BT".to_string() };
    assert_eq!(is_uncensored("123456_01", &config), Ok(true));
    assert_eq!(is_uncensored("heyzo-1234", &config), Ok(true));
    assert_eq!(is_uncensored("n1234", &config), Ok(true));
    assert_eq!(is_uncensored("S2M", &config), Ok(true));
    assert_eq!(is_uncensored("BT", &config), Ok(true));
    assert_eq!(is_uncensored("ABC-12", &config), Ok(false));
    assert_eq!(is_uncensored("S2", &config), Ok(false));
    assert_eq!(is_uncensored("", &config), Ok(false));
    assert_eq!(is_uncensored("", &Uncensored { uncensored_prefix: "a,,b".to_string() }), Ok(true));
    assert_eq!(is_uncensored("", &Uncensored { uncensored_prefix: String::new() }), Ok(true));
}

#[test]
fn marks_are_read_off_the_path() {
    let marks = file_marks("/films/ABC-123-C.mp4").unwrap();
    assert_eq!(marks.c_word, "-C");
    assert_eq!(marks.leak_word, "");
    assert_eq!(marks.hack_word, "");
    assert!(!marks.is_4k);
    let marks = file_marks("/films/ABC-123_Uncensored_HACK.4K.mp4").unwrap();
    assert_eq!(marks.c_word, "");
    assert_eq!(marks.leak_word, "-无码流出");
    assert_eq!(marks.hack_word, "-hack");
    assert!(marks.is_4k);
    let marks = file_marks("/films/中文/ABC-123 破解 流出.mp4").unwrap();
    assert_eq!(marks.c_word, "-C");
    assert_eq!(marks.leak_word, "-无码流出");
    assert_eq!(marks.hack_word, "-hack");
    assert_eq!(file_marks("ABC-123ch.mp4").unwrap().c_word, "-C");
    assert_eq!(file_marks("ABC-123.mp4").unwrap().c_word, "");
}

#[test]
fn images_are_named_with_or_without_the_identifier() {
    let marks = file_marks("ABC-123-C.mp4").unwrap();
    let plain = image_names(&movie(), &marks, false);
    assert_eq!(plain.thumb, "thumb.jpeg");
    assert_eq!(plain.poster, "poster.jpeg");
    assert_eq!(plain.fanart, "fanart.jpeg");
    let marks = file_marks("ABC-123.hack.uncensored-C.mp4").unwrap();
    let numbered = image_names(&movie(), &marks, true);
    assert_eq!(numbered.thumb, "ABC-123-无码流出-C-hack-thumb.jpeg");
    assert_eq!(numbered.poster, "ABC-123-无码流出-C-hack-poster.jpeg");
    assert_eq!(numbered.fanart, "ABC-123-无码流出-C-hack-fanart.jpeg");
}

#[test]
fn folder_follows_the_location_rule() {
    assert_eq!(folder_location_of(&movie(), &rule("/$actor/$number ", "", 50)), "Ann, Bea/ABC-123");
    assert_eq!(folder_location_of(&movie(), &rule("$number/$title", "", 9)), "ABC-123/ABC-123 A");
    assert_eq!(folder_location_of(&movie(), &rule("$number/$title", "", 50)), "ABC-123/$title");
    let mut crowd = movie();
    crowd.actor = (0..12).map(|i| (format!("Actor{}", i), String::new())).collect();
    assert_eq!(folder_location_of(&crowd, &rule("$actor/$number", "", 50)), "多人作品/ABC-123");
    let mut nobody = movie();
    nobody.actor.clear();
    assert_eq!(folder_location_of(&nobody, &rule("$actor/$number", "", 50)), "ABC-123");
    assert_eq!(folder_location_of(&nobody, &rule("//$number", "", 50)), "/ABC-123");
}

#[test]
fn description_is_built_from_the_record() {
    let marks = file_marks("ABC-123.mp4").unwrap();
    let images = image_names(&movie(), &marks, false);
    let nfo = build_nfo(&rule("", "$number $title", 50), &movie(), &marks, false, &images);
    assert_eq!(nfo.title, "ABC-123  A long title");
    assert_eq!(nfo.sort_title, nfo.title);
    assert_eq!(nfo.original_title, "ABC-123 A long title");
    assert_eq!(nfo.customrating, "JP-18+");
    assert_eq!(nfo.mpaa, "JP-18+");
    assert_eq!(nfo.set, "Series");
    assert_eq!(nfo.maker, "Studio");
    assert_eq!(nfo.plot, "Outline");
    assert_eq!(nfo.poster, "poster.jpeg");
    assert_eq!(nfo.thumb, "thumb.jpeg");
    assert_eq!(nfo.fanart, vec!["fanart.jpeg"]);
    assert_eq!(nfo.actors.len(), 2);
    assert_eq!(nfo.actors[0].name, "Ann");
    assert_eq!(nfo.actors[0].thumb, ".actors/Ann.png");
    assert_eq!(nfo.actors[1].thumb, "");
    assert_eq!(nfo.tag.len(), 1);
    assert_eq!(nfo.tag[0].content, "drama");
    assert_eq!(nfo.num, "ABC-123");
    assert_eq!(nfo.premiered, "2021-03-04");
    assert_eq!(nfo.release_date, "2021-03-04");
    assert_eq!(nfo.userrating, "4.5");
    assert_eq!(nfo.ratings.len(), 1);
    assert_eq!(nfo.ratings[0].value, "4.5");
    assert_eq!(nfo.ratings[0].votes, "10");
    assert_eq!(nfo.ratings[0].max, "5");
    assert!(nfo.ratings[0].default);
    assert_eq!(nfo.trailer, "");
    assert_eq!(nfo.website, "https://x.test/d");
}

#[test]
fn missing_tags_are_made_of_the_marks() {
    let mut bare = movie();
    bare.tag.clear();
    let marks = file_marks("ABC-123.hack.uncensored-C.mp4").unwrap();
    let images = image_names(&bare, &marks, false);
    let nfo = build_nfo(&rule("", "$title", 50), &bare, &marks, true, &images);
    let tags: Vec<&str> = nfo.tag.iter().map(|t| t.content.as_str()).collect();
    assert_eq!(tags, vec!["中文字幕", "流出", "破解", "无码"]);
    let none = file_marks("ABC-123.mp4").unwrap();
    let nfo = build_nfo(&rule("", "$title", 50), &bare, &none, false, &images);
    assert!(nfo.tag.is_empty());
}
