//! How a film that was found is named on disk and described beside its file.
//!
//! Nothing here touches the disk: these functions say what the folder, the
//! images and the description are to hold.

use crate::config::{NameRule, Uncensored};
use crate::error::ConfigError;
use crate::lookup::optional_page;
use crate::parser::{pair_views, tag_views, Actor, Movie, MovieView, Tag};
use crate::pattern::{first_match, has_match, pattern_is_valid};
use crate::text::{
    append_to, byte_len, byte_offset_in, char_position, char_position_in, chars_of,
    lemma_char_position_bounds, contains, ends_with, find_in, has_suffix, joined, lowercase_in,
    lowercase_of, matches_at, replace_all, replace_in, same_text, slice_of, split, split_all,
    starts_with, string_of, text_views, trim, trim_in,
};
use vstd::prelude::*;
use vstd::string::StringExecFns;

verus! {

/// The extension of an image at the address `url`: the first of `.jpg`,
/// `.jpeg`, `.gif`, `.png` and `.bmp` that the address ends with, and `.jpg`
/// where it ends with none of them or there is no address.
pub open spec fn image_extension(url: Option<Seq<char>>) -> Seq<char> {
    match url {
        Some(s) => if ends_with(s, ".jpg"@) {
            ".jpg"@
        } else if ends_with(s, ".jpeg"@) {
            ".jpeg"@
        } else if ends_with(s, ".gif"@) {
            ".gif"@
        } else if ends_with(s, ".png"@) {
            ".png"@
        } else if ends_with(s, ".bmp"@) {
            ".bmp"@
        } else {
            ".jpg"@
        },
        None => ".jpg"@,
    }
}

/// The extension of an image at the address `url`.
pub fn image_ext(url: Option<&str>) -> (r: &'static str)
    ensures
        r@ == image_extension(optional_page(url)),
{
    match url {
        Some(s) => {
            let chars: Vec<char> = chars_of(s);
            if has_suffix(&chars, &chars_of(".jpg")) {
                ".jpg"
            } else if has_suffix(&chars, &chars_of(".jpeg")) {
                ".jpeg"
            } else if has_suffix(&chars, &chars_of(".gif")) {
                ".gif"
            } else if has_suffix(&chars, &chars_of(".png")) {
                ".png"
            } else if has_suffix(&chars, &chars_of(".bmp")) {
                ".bmp"
            } else {
                ".jpg"
            }
        },
        None => ".jpg",
    }
}

/// The pattern of identifiers that are uncensored by their shape.
pub open spec fn uncensored_pattern() -> Seq<char> {
    r"[\d-]{4,}|\d{6}_\d{2,3}|(cz|gedo|k|n|red-|se)\d{2,4}|heyzo.+|xxx-av-.+|heydouga-.+|x-art\.\d{2}\.\d{2}\.\d{2}"@
}

/// Whether `number`, as it stands, is one of the entries of `prefixes`, a
/// list with commas; whitespace around an entry does not count.
pub open spec fn listed_uncensored(number: Seq<char>, prefixes: Seq<char>) -> bool {
    exists|i: int|
        0 <= i < split(prefixes, ',').len() && trim(#[trigger] split(prefixes, ',')[i]) == number
}

/// Whether the film `number` is uncensored: by the shape of its identifier,
/// or because the configuration lists it.
pub open spec fn known_uncensored(number: Seq<char>, prefixes: Seq<char>) -> Result<
    bool,
    ConfigError,
> {
    if !pattern_is_valid(uncensored_pattern()) {
        Err(ConfigError::InvalidPattern)
    } else {
        Ok(first_match(uncensored_pattern(), number) is Some || listed_uncensored(number, prefixes))
    }
}

/// Whether the film `number` is uncensored.
pub fn is_uncensored(number: &str, config: &Uncensored) -> (r: Result<bool, ConfigError>)
    ensures
        r == known_uncensored(number@, config.uncensored_prefix@),
{
    let by_shape: bool = has_match(
        r"[\d-]{4,}|\d{6}_\d{2,3}|(cz|gedo|k|n|red-|se)\d{2,4}|heyzo.+|xxx-av-.+|heydouga-.+|x-art\.\d{2}\.\d{2}\.\d{2}",
        number,
    )?;
    if by_shape {
        return Ok(true);
    }
    let entries: Vec<String> = split_all(config.uncensored_prefix.as_str(), ',');
    let wanted: Vec<char> = chars_of(number);
    let mut i: usize = 0;
    while i < entries.len()
        invariant
            i <= entries.len(),
            wanted@ == number@,
            text_views(entries@) == split(config.uncensored_prefix@, ','),
            pattern_is_valid(uncensored_pattern()),
            first_match(uncensored_pattern(), number@) is None,
            forall|k: int|
                0 <= k < i ==> trim(#[trigger] split(config.uncensored_prefix@, ',')[k])
                    != number@,
        decreases entries.len() - i,
    {
        let entry: Vec<char> = trim_in(&chars_of(entries[i].as_str()));
        assert(text_views(entries@)[i as int] == entries@[i as int]@);
        if crate::text::same_chars(&entry, &wanted) {
            assert(trim(split(config.uncensored_prefix@, ',')[i as int]) == number@);
            return Ok(true);
        }
        i += 1;
    }
    Ok(false)
}

/// The pattern of a file name that says the film has Chinese subtitles.
pub open spec fn subtitle_pattern() -> Seq<char> {
    r"[-_]C(\.\w+$|-\w+)|\d+ch(\.\w+$|-\w+)"@
}

/// What the path of a file tells of the film: the marks that go into the
/// names of its files, and whether it is in 4K.
#[derive(Debug, Clone)]
pub struct FileMarks {
    pub c_word: String,
    pub leak_word: String,
    pub hack_word: String,
    pub is_4k: bool,
}

/// Whether the path says that the film has Chinese subtitles.
pub open spec fn has_subtitles(path: Seq<char>) -> bool {
    first_match(subtitle_pattern(), path) is Some || contains(path, "中文"@) || contains(
        path,
        "字幕"@,
    )
}

/// Whether the path, in lower case, says that the film was leaked.
pub open spec fn is_leak(lower: Seq<char>) -> bool {
    contains(lower, "流出"@) || contains(lower, "uncensored"@)
}

/// Whether the path, in lower case, says that the film was cracked.
pub open spec fn is_hack(lower: Seq<char>) -> bool {
    contains(lower, "hack"@) || contains(lower, "破解"@)
}

/// Reads the marks of a film off the path of its file: `-C` for Chinese
/// subtitles, `-无码流出` for a leak, `-hack` for a crack, each empty where
/// the path does not say so.
pub fn file_marks(file_path: &str) -> (r: Result<FileMarks, ConfigError>)
    ensures
        r is Ok <==> pattern_is_valid(subtitle_pattern()),
        r matches Err(e) ==> e == ConfigError::InvalidPattern,
        r matches Ok(marks) ==> {
            &&& marks.c_word@ == (if has_subtitles(file_path@) {
                "-C"@
            } else {
                ""@
            })
            &&& marks.leak_word@ == (if is_leak(lowercase_of(file_path@)) {
                "-无码流出"@
            } else {
                ""@
            })
            &&& marks.hack_word@ == (if is_hack(lowercase_of(file_path@)) {
                "-hack"@
            } else {
                ""@
            })
            &&& marks.is_4k == contains(lowercase_of(file_path@), "4k"@)
        },
{
    let by_name: bool = has_match(r"[-_]C(\.\w+$|-\w+)|\d+ch(\.\w+$|-\w+)", file_path)?;
    let path: Vec<char> = chars_of(file_path);
    let subtitles: bool = by_name || find_in(&path, &chars_of("中文")).is_some() || find_in(
        &path,
        &chars_of("字幕"),
    ).is_some();
    let lower: Vec<char> = lowercase_in(&path);
    let leak: bool = find_in(&lower, &chars_of("流出")).is_some() || find_in(
        &lower,
        &chars_of("uncensored"),
    ).is_some();
    let hack: bool = find_in(&lower, &chars_of("hack")).is_some() || find_in(
        &lower,
        &chars_of("破解"),
    ).is_some();
    let is_4k: bool = find_in(&lower, &chars_of("4k")).is_some();
    Ok(
        FileMarks {
            c_word: if subtitles {
                "-C".to_owned()
            } else {
                "".to_owned()
            },
            leak_word: if leak {
                "-无码流出".to_owned()
            } else {
                "".to_owned()
            },
            hack_word: if hack {
                "-hack".to_owned()
            } else {
                "".to_owned()
            },
            is_4k,
        },
    )
}

/// The names of the three images of a film.
#[derive(Debug, Clone)]
pub struct ImageNames {
    pub thumb: String,
    pub poster: String,
    pub fanart: String,
}

/// The name of an image of the kind `kind`: the kind and the extension; or,
/// where names carry the identifier, the identifier, the marks, a dash, the
/// kind and the extension.
pub open spec fn image_name(
    kind: Seq<char>,
    number: Seq<char>,
    marks: FileMarks,
    with_number: bool,
    extension: Seq<char>,
) -> Seq<char> {
    if with_number {
        number + marks.leak_word@ + marks.c_word@ + marks.hack_word@ + "-"@ + kind + extension
    } else {
        kind + extension
    }
}

/// The name of an image of the kind `kind`.
pub fn image_name_of(kind: &str, number: &str, marks: &FileMarks, with_number: bool, extension: &str) -> (r:
    String)
    ensures
        r@ == image_name(kind@, number@, *marks, with_number, extension@),
{
    if with_number {
        number.to_owned().concat(marks.leak_word.as_str()).concat(marks.c_word.as_str()).concat(
            marks.hack_word.as_str(),
        ).concat("-").concat(kind).concat(extension)
    } else {
        kind.to_owned().concat(extension)
    }
}

/// The names of the images of the film `movie`; their extension is that of
/// the film's cover.
pub fn image_names(movie: &Movie, marks: &FileMarks, with_number: bool) -> (r: ImageNames)
    ensures
        r.thumb@ == image_name(
            "thumb"@,
            movie@.number,
            *marks,
            with_number,
            image_extension(Some(movie@.cover)),
        ),
        r.poster@ == image_name(
            "poster"@,
            movie@.number,
            *marks,
            with_number,
            image_extension(Some(movie@.cover)),
        ),
        r.fanart@ == image_name(
            "fanart"@,
            movie@.number,
            *marks,
            with_number,
            image_extension(Some(movie@.cover)),
        ),
{
    let extension: &str = image_ext(Some(movie.cover.as_str()));
    let number: &str = movie.number.as_str();
    ImageNames {
        thumb: image_name_of("thumb", number, marks, with_number, extension),
        poster: image_name_of("poster", number, marks, with_number, extension),
        fanart: image_name_of("fanart", number, marks, with_number, extension),
    }
}

/// The first parts of pairs.
pub open spec fn first_parts(pairs: Seq<(Seq<char>, Seq<char>)>) -> Seq<Seq<char>> {
    Seq::new(pairs.len(), |i: int| pairs[i].0)
}

/// The names of the actors in a location: all of them, with a comma and a
/// space between them, or `多人作品` where that takes more than 50 bytes.
pub open spec fn actors_in_location(movie: MovieView) -> Seq<char> {
    let names = joined(first_parts(movie.actor), ", "@);
    if byte_len(names) > 50 {
        "多人作品"@
    } else {
        names
    }
}

/// The folder of a film below the folder for what was found, as the rule
/// `rule` lays it out: `$actor` stands for the actors and `$number` for the
/// identifier; `$title` stands for the title cut to `max_title_len` bytes,
/// or to the character below where that falls inside one, and is filled in
/// where the title is longer than that and the rule holds `title`. One slash
/// at the start and whitespace at both ends are dropped.
pub open spec fn folder_location(movie: MovieView, rule: Seq<char>, max_title_len: int) -> Seq<
    char,
> {
    let with_actor = if contains(rule, "$actor"@) {
        replace_all(rule, "$actor"@, actors_in_location(movie))
    } else {
        rule
    };
    let with_title = if contains(rule, "title"@) && byte_len(movie.title) > max_title_len {
        replace_all(
            with_actor,
            "$title"@,
            movie.title.take(char_position(movie.title, max_title_len)),
        )
    } else {
        with_actor
    };
    let with_number = replace_all(with_title, "$number"@, movie.number);
    let relative = if starts_with(with_number, "/"@) {
        with_number.skip(1)
    } else {
        with_number
    };
    trim(relative)
}

/// The texts of a list written one after the other, with `sep` between them.
pub fn join_texts(texts: &Vec<Vec<char>>, sep: &Vec<char>) -> (r: Vec<char>)
    ensures
        r@ == joined(Seq::new(texts@.len(), |i: int| texts@[i]@), sep@),
{
    let ghost all = Seq::new(texts@.len(), |i: int| texts@[i]@);
    let mut out: Vec<char> = Vec::new();
    let mut i: usize = 0;
    assert(all.take(0) =~= Seq::<Seq<char>>::empty());
    while i < texts.len()
        invariant
            i <= texts.len(),
            all == Seq::new(texts@.len(), |k: int| texts@[k]@),
            out@ == joined(all.take(i as int), sep@),
        decreases texts.len() - i,
    {
        let ghost before = out@;
        assert(all.take(i + 1).drop_last() =~= all.take(i as int));
        assert(all.take(i + 1).last() == texts@[i as int]@);
        if i > 0 {
            append_to(&mut out, sep);
        } else {
            assert(all.take(1)[0] == texts@[0]@);
            assert(before =~= Seq::<char>::empty());
            assert(before + texts@[0]@ =~= texts@[0]@);
        }
        append_to(&mut out, &texts[i]);
        i += 1;
    }
    assert(all.take(all.len() as int) =~= all);
    out
}

/// The folder of the film `movie` below the folder for what was found.
pub fn folder_location_of(movie: &Movie, rule: &NameRule) -> (r: String)
    ensures
        r@ == folder_location(movie@, rule.location_rule@, rule.max_title_len as int),
{
    let mut names: Vec<Vec<char>> = Vec::new();
    let mut i: usize = 0;
    while i < movie.actor.len()
        invariant
            i <= movie.actor.len(),
            names.len() == i,
            forall|k: int| 0 <= k < i ==> (#[trigger] names@[k])@ == movie.actor@[k].0@,
        decreases movie.actor.len() - i,
    {
        names.push(chars_of(movie.actor[i].0.as_str()));
        i += 1;
    }
    assert(Seq::new(names@.len(), |k: int| names@[k]@) =~= first_parts(movie@.actor));
    let all_names: Vec<char> = join_texts(&names, &chars_of(", "));
    assert(all_names@.take(all_names@.len() as int) =~= all_names@);
    let actors: Vec<char> = if byte_offset_in(&all_names, all_names.len()) > 50 {
        chars_of("多人作品")
    } else {
        all_names
    };
    let rule_chars: Vec<char> = chars_of(rule.location_rule.as_str());
    let with_actor: Vec<char> = if find_in(&rule_chars, &chars_of("$actor")).is_some() {
        replace_in(&rule_chars, &chars_of("$actor"), &actors)
    } else {
        slice_of(&rule_chars, 0, rule_chars.len())
    };
    assert(rule_chars@.subrange(0, rule_chars@.len() as int) =~= rule_chars@);
    let title: Vec<char> = chars_of(movie.title.as_str());
    assert(title@.take(title@.len() as int) =~= title@);
    let with_title: Vec<char> = if find_in(&rule_chars, &chars_of("title")).is_some()
        && byte_offset_in(&title, title.len()) > rule.max_title_len as u128 {
        let upto: usize = char_position_in(&title, rule.max_title_len as u128);
        proof {
            lemma_char_position_bounds(title@, rule.max_title_len as int);
        }
        let cut: Vec<char> = slice_of(&title, 0, upto);
        assert(cut@ =~= movie@.title.take(upto as int));
        replace_in(&with_actor, &chars_of("$title"), &cut)
    } else {
        with_actor
    };
    let with_number: Vec<char> = replace_in(
        &with_title,
        &chars_of("$number"),
        &chars_of(movie.number.as_str()),
    );
    let relative: Vec<char> = if matches_at(&with_number, &chars_of("/"), 0) {
        proof {
            reveal_strlit("/");
        }
        let rest: Vec<char> = slice_of(&with_number, 1, with_number.len());
        assert(rest@ =~= with_number@.skip(1));
        rest
    } else {
        with_number
    };
    string_of(&trim_in(&relative))
}

/// A rating as written into the description of a film.
#[derive(Debug, Clone)]
pub struct Rating {
    pub value: String,
    pub votes: String,
    pub max: String,
    pub default: bool,
}

/// The description of a film that is written beside its file.
#[derive(Debug, Clone)]
pub struct MovieNfo {
    pub title: String,
    pub original_title: String,
    pub sort_title: String,
    pub customrating: String,
    pub mpaa: String,
    pub set: String,
    pub studio: String,
    pub year: String,
    pub outline: String,
    pub plot: String,
    pub runtime: String,
    pub director: String,
    pub poster: String,
    pub thumb: String,
    pub fanart: Vec<String>,
    pub actors: Vec<Actor>,
    pub maker: String,
    pub label: String,
    pub tag: Vec<Tag>,
    pub num: String,
    pub premiered: String,
    pub release_date: String,
    pub release: String,
    pub userrating: String,
    pub ratings: Vec<Rating>,
    pub cover: String,
    pub trailer: String,
    pub website: String,
}

/// The title in a description: the rule with `$number` standing for the
/// identifier and `$title` for the title without the identifier in it.
pub open spec fn described_title(movie: MovieView, rule: Seq<char>) -> Seq<char> {
    replace_all(
        replace_all(rule, "$number"@, movie.number),
        "$title"@,
        replace_all(movie.title, movie.number, Seq::empty()),
    )
}

/// The photo of an actor in a description: a file in the folder `.actors`
/// named after the actor, with the extension of the photo's address; nothing
/// for an actor without a photo.
pub open spec fn described_photo(name: Seq<char>, photo: Seq<char>) -> Seq<char> {
    if photo.len() > 0 {
        ".actors/"@ + name + image_extension(Some(photo))
    } else {
        photo
    }
}

/// The actors in a description.
pub open spec fn described_actors(actors: Seq<(Seq<char>, Seq<char>)>) -> Seq<
    (Seq<char>, Seq<char>),
> {
    Seq::new(actors.len(), |i: int| (actors[i].0, described_photo(actors[i].0, actors[i].1)))
}

/// The tags that stand in for missing ones: one for each mark of the file,
/// and one for an uncensored film.
pub open spec fn tags_of_marks(marks: FileMarks, uncensored: bool) -> Seq<Seq<char>> {
    (if marks.c_word@.len() > 0 {
        seq!["中文字幕"@]
    } else {
        Seq::empty()
    }) + (if marks.leak_word@.len() > 0 {
        seq!["流出"@]
    } else {
        Seq::empty()
    }) + (if marks.hack_word@.len() > 0 {
        seq!["破解"@]
    } else {
        Seq::empty()
    }) + (if uncensored {
        seq!["无码"@]
    } else {
        Seq::empty()
    })
}

/// The tags in a description: those of the film, or those of its marks
/// where it has none.
pub open spec fn described_tags(movie: MovieView, marks: FileMarks, uncensored: bool) -> Seq<
    Seq<char>,
> {
    if movie.tag.len() == 0 {
        tags_of_marks(marks, uncensored)
    } else {
        movie.tag
    }
}

/// Actors as pairs of name and photo.
pub open spec fn actor_views(actors: Seq<Actor>) -> Seq<(Seq<char>, Seq<char>)> {
    Seq::new(actors.len(), |i: int| (actors[i].name@, actors[i].thumb@))
}

/// The tags that stand in for missing ones.
pub fn tags_for_marks(marks: &FileMarks, uncensored: bool) -> (r: Vec<Tag>)
    ensures
        tag_views(r@) == tags_of_marks(*marks, uncensored),
{
    let mut out: Vec<Tag> = Vec::new();
    assert(tag_views(out@) =~= Seq::<Seq<char>>::empty());
    if !marks.c_word.as_str().is_empty() {
        let ghost before = tag_views(out@);
        out.push(Tag { content: "中文字幕".to_owned() });
        assert(tag_views(out@) =~= before + seq!["中文字幕"@]);
    }
    if !marks.leak_word.as_str().is_empty() {
        let ghost before = tag_views(out@);
        out.push(Tag { content: "流出".to_owned() });
        assert(tag_views(out@) =~= before + seq!["流出"@]);
    }
    if !marks.hack_word.as_str().is_empty() {
        let ghost before = tag_views(out@);
        out.push(Tag { content: "破解".to_owned() });
        assert(tag_views(out@) =~= before + seq!["破解"@]);
    }
    if uncensored {
        let ghost before = tag_views(out@);
        out.push(Tag { content: "无码".to_owned() });
        assert(tag_views(out@) =~= before + seq!["无码"@]);
    }
    assert(tag_views(out@) =~= tags_of_marks(*marks, uncensored));
    out
}

/// The description of the film `movie`, whose images are named `images`.
pub fn build_nfo(
    rule: &NameRule,
    movie: &Movie,
    marks: &FileMarks,
    uncensored: bool,
    images: &ImageNames,
) -> (r: MovieNfo)
    ensures
        r.title@ == described_title(movie@, rule.naming_rule@),
        r.sort_title@ == r.title@,
        r.original_title@ == movie@.title,
        r.customrating@ == "JP-18+"@,
        r.mpaa@ == "JP-18+"@,
        r.set@ == movie@.series,
        r.studio@ == movie@.studio,
        r.maker@ == movie@.studio,
        r.year@ == movie@.year,
        r.outline@ == movie@.outline,
        r.plot@ == movie@.outline,
        r.runtime@ == movie@.runtime,
        r.director@ == movie@.director,
        r.poster@ == images.poster@,
        r.thumb@ == images.thumb@,
        text_views(r.fanart@) == seq![images.fanart@],
        actor_views(r.actors@) == described_actors(movie@.actor),
        r.label@ == movie@.label,
        tag_views(r.tag@) == described_tags(movie@, *marks, uncensored),
        r.num@ == movie@.number,
        r.premiered@ == movie@.release,
        r.release_date@ == movie@.release,
        r.release@ == movie@.release,
        r.userrating@ == movie@.user_rating,
        r.ratings@.len() == 1,
        r.ratings@[0].value@ == movie@.user_rating,
        r.ratings@[0].votes@ == movie@.user_votes,
        r.ratings@[0].max@ == movie@.max_user_rating,
        r.ratings@[0].default,
        r.cover@ == movie@.cover,
        r.trailer@ == ""@,
        r.website@ == movie@.website,
{
    let number: Vec<char> = chars_of(movie.number.as_str());
    let bare_title: Vec<char> = replace_in(&chars_of(movie.title.as_str()), &number, &Vec::new());
    let numbered: Vec<char> = replace_in(
        &chars_of(rule.naming_rule.as_str()),
        &chars_of("$number"),
        &number,
    );
    let title: String = string_of(&replace_in(&numbered, &chars_of("$title"), &bare_title));
    let mut actors: Vec<Actor> = Vec::new();
    let mut i: usize = 0;
    while i < movie.actor.len()
        invariant
            i <= movie.actor.len(),
            actors.len() == i,
            forall|k: int|
                0 <= k < i ==> (#[trigger] actors@[k]).name@ == movie.actor@[k].0@ && actors@[k].thumb@
                    == described_photo(movie.actor@[k].0@, movie.actor@[k].1@),
        decreases movie.actor.len() - i,
    {
        let name: &str = movie.actor[i].0.as_str();
        let photo: &str = movie.actor[i].1.as_str();
        let thumb: String = if !photo.is_empty() {
            ".actors/".to_owned().concat(name).concat(image_ext(Some(photo)))
        } else {
            photo.to_owned()
        };
        actors.push(Actor { name: name.to_owned(), thumb });
        i += 1;
    }
    assert(actor_views(actors@) =~= described_actors(movie@.actor));
    let tag: Vec<Tag> = if movie.tag.len() == 0 {
        tags_for_marks(marks, uncensored)
    } else {
        movie.get_tags()
    };
    let mut fanart: Vec<String> = Vec::new();
    fanart.push(images.fanart.clone());
    assert(text_views(fanart@) =~= seq![images.fanart@]);
    let mut ratings: Vec<Rating> = Vec::new();
    ratings.push(
        Rating {
            value: movie.user_rating.clone(),
            votes: movie.user_votes.clone(),
            max: movie.max_user_rating.clone(),
            default: true,
        },
    );
    MovieNfo {
        sort_title: title.clone(),
        title,
        original_title: movie.title.clone(),
        customrating: "JP-18+".to_owned(),
        mpaa: "JP-18+".to_owned(),
        set: movie.series.clone(),
        studio: movie.studio.clone(),
        year: movie.year.clone(),
        outline: movie.outline.clone(),
        plot: movie.outline.clone(),
        runtime: movie.runtime.clone(),
        director: movie.director.clone(),
        poster: images.poster.clone(),
        thumb: images.thumb.clone(),
        fanart,
        actors,
        maker: movie.studio.clone(),
        label: movie.label.clone(),
        tag,
        num: movie.number.clone(),
        premiered: movie.release.clone(),
        release_date: movie.release.clone(),
        release: movie.release.clone(),
        userrating: movie.user_rating.clone(),
        ratings,
        cover: movie.cover.clone(),
        trailer: "".to_owned(),
        website: movie.website.clone(),
    }
}

} // verus!
