//! Converting a video: the qualities on offer, the name of the result, the tool's
//! arguments, and the progress.

use crate::library::{
    badge_text, is_path_number, lemma_numbered_name, lemma_stem_has_no_slash, numbered_directory,
    numbered_name_of,
};
use crate::paths::{
    components, extension, file_stem, has_parent, is_extension_dot, is_proper_name, is_under,
    join_path, joined, lemma_components_join, lemma_file_name, name_extension, name_stem,
    path_extension, path_file_stem,
};
use crate::text::{
    after_prefix, contains_seq, decimal, decimal_text, is_digit, lemma_decimal_digits, occurs_at,
    opt_text, parse_u32, parsed_u32, same_text, signed_decimal, signed_decimal_text, strip_prefix,
    texts,
};
use crate::watch::{paused, resumed, MonitoringView, Monitoring};
use vstd::prelude::*;
use vstd::string::*;

verus! {

/// How often the progress is looked at, in milliseconds.
pub const PROGRESS_INTERVAL_MS: u64 = 100;

/// How long the completed progress is shown, in milliseconds.
pub const COMPLETED_PAUSE_MS: u64 = 500;

/// One of the qualities on offer.
#[derive(Debug)]
pub struct ConversionOption {
    pub title: String,
    pub subtitle: String,
    pub description: String,
}

/// The texts of one of the qualities on offer.
pub open spec fn option_texts(o: ConversionOption) -> (Seq<char>, Seq<char>, Seq<char>) {
    (o.title@, o.subtitle@, o.description@)
}

/// The qualities on offer.
pub fn conversion_options() -> (options: Vec<ConversionOption>)
    ensures
        options@.map_values(|o: ConversionOption| option_texts(o)) == seq![
            (
                "📱 480p"@,
                "Rendimiento Máximo"@,
                "Ideal para sistemas de bajo rendimiento\n• Resolución: 854x480\n• Uso de CPU: Muy bajo"@,
            ),
            (
                "💻 720p"@,
                "Equilibrio Perfecto"@,
                "Balance ideal rendimiento/calidad\n• Resolución: 1280x720\n• Uso de CPU: Moderado"@,
            ),
            (
                "🖥️ 1080p"@,
                "Calidad Premium"@,
                "Máxima calidad visual\n• Resolución: 1920x1080\n• Uso de CPU: Alto"@,
            ),
            (
                "🔥 Original"@,
                "Optimización Pura"@,
                "Mantiene resolución original\n• Solo optimiza compresión\n• Uso de CPU: Variable"@,
            ),
        ],
{
    let options = vec![
        ConversionOption {
            title: "📱 480p".to_owned(),
            subtitle: "Rendimiento Máximo".to_owned(),
            description: "Ideal para sistemas de bajo rendimiento\n• Resolución: 854x480\n• Uso de CPU: Muy bajo".to_owned(),
        },
        ConversionOption {
            title: "💻 720p".to_owned(),
            subtitle: "Equilibrio Perfecto".to_owned(),
            description: "Balance ideal rendimiento/calidad\n• Resolución: 1280x720\n• Uso de CPU: Moderado".to_owned(),
        },
        ConversionOption {
            title: "🖥️ 1080p".to_owned(),
            subtitle: "Calidad Premium".to_owned(),
            description: "Máxima calidad visual\n• Resolución: 1920x1080\n• Uso de CPU: Alto".to_owned(),
        },
        ConversionOption {
            title: "🔥 Original".to_owned(),
            subtitle: "Optimización Pura".to_owned(),
            description: "Mantiene resolución original\n• Solo optimiza compresión\n• Uso de CPU: Variable".to_owned(),
        },
    ];
    assert(options@.map_values(|o: ConversionOption| option_texts(o)) =~= seq![
        (
            "📱 480p"@,
            "Rendimiento Máximo"@,
            "Ideal para sistemas de bajo rendimiento\n• Resolución: 854x480\n• Uso de CPU: Muy bajo"@,
        ),
        (
            "💻 720p"@,
            "Equilibrio Perfecto"@,
            "Balance ideal rendimiento/calidad\n• Resolución: 1280x720\n• Uso de CPU: Moderado"@,
        ),
        (
            "🖥️ 1080p"@,
            "Calidad Premium"@,
            "Máxima calidad visual\n• Resolución: 1920x1080\n• Uso de CPU: Alto"@,
        ),
        (
            "🔥 Original"@,
            "Optimización Pura"@,
            "Mantiene resolución original\n• Solo optimiza compresión\n• Uso de CPU: Variable"@,
        ),
    ]);
    options
}

/// The column and the row of a quality in the dialog: two in each row.
pub fn option_place(index: usize) -> (place: (usize, usize))
    ensures
        place.0 == index as int % 2,
        place.1 == index as int / 2,
        index == 2 * place.1 + place.0,
{
    (index % 2, index / 2)
}

/// The frame rate that was asked for: a number from 1 to 120.
pub fn parse_fps(text: &str) -> (fps: Result<u32, String>)
    ensures
        match parsed_u32(text@) {
            Some(n) if 1 <= n <= 120 => fps == Ok::<u32, String>(n),
            _ => fps matches Err(e) && e@ == "❌ Por favor, introduce un valor FPS válido (1-120)"@,
        },
{
    match parse_u32(text) {
        Some(n) => if n >= 1 && n <= 120 {
            return Ok(n);
        },
        None => {},
    }
    Err("❌ Por favor, introduce un valor FPS válido (1-120)".to_owned())
}

// The result's name.

/// The name of a quality.
pub open spec fn quality_name_of(index: nat) -> Seq<char> {
    if index == 0 {
        "480p"@
    } else if index == 1 {
        "720p"@
    } else if index == 2 {
        "1080p"@
    } else {
        "original"@
    }
}

/// The name of a quality.
pub fn quality_name(index: usize) -> (name: &'static str)
    requires
        index < 4,
    ensures
        name@ == quality_name_of(index as nat),
{
    if index == 0 {
        "480p"
    } else if index == 1 {
        "720p"
    } else if index == 2 {
        "1080p"
    } else {
        "original"
    }
}

/// The stem of the result's name.
pub open spec fn output_stem_of(stem: Seq<char>, quality: nat, fps: u32) -> Seq<char> {
    stem + "_"@ + quality_name_of(quality) + "_"@ + decimal(fps as nat) + "fps_optimizado"@
}

/// The stem of a video's name; nothing when the path leads to no file.
pub open spec fn stem_or_empty(video: Seq<char>) -> Seq<char> {
    match file_stem(video) {
        Some(stem) => stem,
        None => Seq::<char>::empty(),
    }
}

/// The extension of a video's name; nothing when it has none.
pub open spec fn extension_or_empty(video: Seq<char>) -> Seq<char> {
    match extension(video) {
        Some(ext) => ext,
        None => Seq::<char>::empty(),
    }
}

/// The name of the result.
pub open spec fn output_name_of(video: Seq<char>, quality: nat, fps: u32) -> Seq<char> {
    output_stem_of(stem_or_empty(video), quality, fps) + "."@ + extension_or_empty(video)
}

/// Where the result of a conversion goes.
#[derive(Debug)]
pub struct ConversionPlan {
    /// The name of the result.
    pub file_name: String,
    /// The directory that the result gets for itself.
    pub directory: String,
    /// The path of the result.
    pub output: String,
}

/// The plan puts the result into the directory `folder` of the library.
pub open spec fn is_conversion_plan(
    plan: ConversionPlan,
    name: Seq<char>,
    folder: Seq<char>,
    library_dir: Seq<char>,
) -> bool {
    &&& plan.file_name@ == name
    &&& plan.directory@ == joined(library_dir, folder)
    &&& plan.output@ == joined(plan.directory@, name)
}

fn output_stem(video_path: &str, quality: usize, fps: u32) -> (text: String)
    requires
        quality < 4,
    ensures
        text@ == output_stem_of(stem_or_empty(video_path@), quality as nat, fps),
{
    let mut text = match path_file_stem(video_path) {
        Some(stem) => stem,
        None => String::new(),
    };
    text.append("_");
    text.append(quality_name(quality));
    text.append("_");
    text.append(decimal_text(fps as u64).as_str());
    text.append("fps_optimizado");
    text
}

/// Where the result of a conversion goes, for the name of its directory.
pub fn conversion_plan(
    video_path: &str,
    quality: usize,
    fps: u32,
    folder: &str,
    library_dir: &str,
) -> (plan: ConversionPlan)
    requires
        quality < 4,
    ensures
        is_conversion_plan(
            plan,
            output_name_of(video_path@, quality as nat, fps),
            folder@,
            library_dir@,
        ),
{
    let mut file_name = output_stem(video_path, quality, fps);
    file_name.append(".");
    match path_extension(video_path) {
        Some(ext) => {
            file_name.append(ext.as_str());
        },
        None => {},
    }
    assert(file_name@ =~= output_name_of(video_path@, quality as nat, fps));
    let directory = join_path(library_dir, folder);
    let output = join_path(directory.as_str(), file_name.as_str());
    ConversionPlan { file_name, directory, output }
}

/// Where the result of a conversion goes: into a directory of the library of its
/// own, named after the result's stem and the number of the video's path.
pub fn convert_video(video_path: &str, quality: usize, fps: u32, library_dir: &str) -> (plan:
    ConversionPlan)
    requires
        quality < 4,
    ensures
        exists|number: u64| #[trigger]
            is_path_number(video_path@, number) && is_conversion_plan(
                plan,
                output_name_of(video_path@, quality as nat, fps),
                numbered_name_of(
                    output_stem_of(stem_or_empty(video_path@), quality as nat, fps),
                    number,
                ),
                library_dir@,
            ),
{
    let stem = output_stem(video_path, quality, fps);
    let folder = numbered_directory(stem.as_str(), video_path);
    conversion_plan(video_path, quality, fps, folder.as_str(), library_dir)
}

/// What is said when the result is there already.
pub fn overwriting_message(file_name: &str) -> (message: String)
    ensures
        message@ == "⚠️ El archivo "@ + file_name@ + " ya existe. Sobrescribiendo..."@,
{
    "⚠️ El archivo ".to_owned().concat(file_name).concat(" ya existe. Sobrescribiendo...")
}

proof fn lemma_last_dot(stem: Seq<char>, ext: Seq<char>)
    requires
        stem.len() > 0,
        !ext.contains('.'),
    ensures
        name_stem(stem.push('.') + ext) == stem,
        name_extension(stem.push('.') + ext) == Some(ext),
{
    let name = stem.push('.') + ext;
    let dot = stem.len() as int;
    assert(is_extension_dot(name, dot)) by {
        assert forall|j: int| dot < j < name.len() implies name[j] != '.' by {
            assert(ext.contains(ext[j - dot - 1]));
            assert(name[j] == ext[j - dot - 1]);
        }
    }
    let chosen = choose|d: int| is_extension_dot(name, d);
    assert(is_extension_dot(name, chosen));
    assert(chosen == dot);
    assert(name.take(dot) =~= stem);
    assert(name.skip(dot + 1) =~= ext);
}

proof fn lemma_extension_has_no_dot(video: Seq<char>)
    ensures
        !extension_or_empty(video).contains('.'),
{
    if let Some(ext) = extension(video) {
        let name = crate::paths::file_name(video)->Some_0;
        let dot = choose|d: int| is_extension_dot(name, d);
        assert(is_extension_dot(name, dot));
        assert forall|k: int| 0 <= k < ext.len() implies ext[k] != '.' by {
            assert(ext[k] == name[dot + 1 + k]);
        }
    }
}

proof fn lemma_parts_have_no_slash(video: Seq<char>)
    ensures
        forall|i: int|
            0 <= i < stem_or_empty(video).len() ==> #[trigger] stem_or_empty(video)[i] != '/',
        forall|i: int|
            0 <= i < extension_or_empty(video).len() ==> #[trigger] extension_or_empty(video)[i]
                != '/',
{
    let stem = stem_or_empty(video);
    let ext = extension_or_empty(video);
    if let Some(name) = crate::paths::file_name(video) {
        lemma_file_name(video);
        lemma_stem_has_no_slash(video);
        if let Some(e) = extension(video) {
            let dot = choose|d: int| is_extension_dot(name, d);
            assert(is_extension_dot(name, dot));
            assert forall|i: int| 0 <= i < ext.len() implies #[trigger] ext[i] != '/' by {
                assert(ext[i] == name[dot + 1 + i]);
            }
        }
    }
}

proof fn lemma_decimal_has_no_slash(n: nat, i: int)
    requires
        0 <= i < decimal(n).len(),
    ensures
        decimal(n)[i] != '/',
{
    lemma_decimal_digits(n);
    assert(is_digit(decimal(n)[i]));
}

proof fn lemma_output_stem(video: Seq<char>, quality: nat, fps: u32)
    ensures
        ({
            let stem = output_stem_of(stem_or_empty(video), quality, fps);
            &&& stem.len() > 0
            &&& forall|i: int| 0 <= i < stem.len() ==> #[trigger] stem[i] != '/'
            &&& contains_seq(stem, "_optimizado"@)
        }),
{
    let first = stem_or_empty(video);
    let label = quality_name_of(quality);
    let digits = decimal(fps as nat);
    let head = first + "_"@ + label + "_"@ + digits;
    let stem = output_stem_of(first, quality, fps);
    reveal_strlit("_");
    reveal_strlit("480p");
    reveal_strlit("720p");
    reveal_strlit("1080p");
    reveal_strlit("original");
    reveal_strlit("fps_optimizado");
    reveal_strlit("_optimizado");
    assert(stem == head + "fps_optimizado"@);
    lemma_parts_have_no_slash(video);
    assert forall|i: int| 0 <= i < stem.len() implies #[trigger] stem[i] != '/' by {
        let (a, b, c) = (first.len() as int, label.len() as int, digits.len() as int);
        if i < a {
            assert(stem[i] == first[i]);
        } else if a < i < a + 1 + b {
            assert(stem[i] == label[i - a - 1]);
        } else if a + b + 2 <= i < a + b + 2 + c {
            assert(stem[i] == digits[i - a - b - 2]);
            lemma_decimal_has_no_slash(fps as nat, i - a - b - 2);
        } else if i >= a + b + 2 + c {
            assert(stem[i] == "fps_optimizado"@[i - a - b - 2 - c]);
        }
    }
    let at = head.len() as int + 3;
    assert(stem.subrange(at, at + "_optimizado"@.len()) =~= "_optimizado"@);
    assert(occurs_at(stem, "_optimizado"@, at));
}

/// The result of a conversion counts as optimized and keeps the format of the video:
/// the stem of its name has the badge of optimized videos, and its extension is that
/// of the video.
pub proof fn law_result_is_optimized(
    plan: ConversionPlan,
    video: Seq<char>,
    quality: nat,
    fps: u32,
    folder: Seq<char>,
    library_dir: Seq<char>,
)
    requires
        is_conversion_plan(plan, output_name_of(video, quality, fps), folder, library_dir),
    ensures
        file_stem(plan.output@) == Some(output_stem_of(stem_or_empty(video), quality, fps)),
        badge_text(output_stem_of(stem_or_empty(video), quality, fps)) == "⚡ Optimizado"@,
        extension(plan.output@) == Some(extension_or_empty(video)),
{
    let stem = output_stem_of(stem_or_empty(video), quality, fps);
    let ext = extension_or_empty(video);
    let name = output_name_of(video, quality, fps);
    lemma_output_stem(video, quality, fps);
    lemma_output_name(video, quality, fps);
    lemma_extension_has_no_dot(video);
    lemma_last_dot(stem, ext);
    lemma_components_join(plan.directory@, name);
}

proof fn lemma_output_name(video: Seq<char>, quality: nat, fps: u32)
    ensures
        output_name_of(video, quality, fps) == output_stem_of(
            stem_or_empty(video),
            quality,
            fps,
        ).push('.') + extension_or_empty(video),
        is_proper_name(output_name_of(video, quality, fps)),
{
    let stem = output_stem_of(stem_or_empty(video), quality, fps);
    let ext = extension_or_empty(video);
    let name = output_name_of(video, quality, fps);
    reveal_strlit(".");
    lemma_output_stem(video, quality, fps);
    lemma_parts_have_no_slash(video);
    assert(name =~= stem.push('.') + ext);
    assert forall|i: int| 0 <= i < name.len() implies name[i] != '/' by {
        if i < stem.len() {
            assert(name[i] == stem[i]);
        } else if i > stem.len() {
            assert(name[i] == ext[i - stem.len() - 1]);
        }
    }
    let at = choose|i: int| occurs_at(stem, "_optimizado"@, i);
    reveal_strlit("_optimizado");
    assert(stem.subrange(at, at + "_optimizado"@.len())[0] == '_');
    assert(name[at] == '_');
    let one = seq!['.'];
    let two = seq!['.', '.'];
    assert(forall|i: int| 0 <= i < one.len() ==> one[i] == '.');
    assert(forall|i: int| 0 <= i < two.len() ==> two[i] == '.');
}

/// The name of a result tells what was made of which video: the stem of the video's name, the
/// quality, the frame rate that was asked for, and the mark of optimized videos, with the
/// extension of the video.
pub proof fn law_result_tells_its_making(video: Seq<char>, fps: u32)
    ensures
        output_name_of(video, 0, fps) == stem_or_empty(video) + "_480p_"@ + decimal(fps as nat)
            + "fps_optimizado."@ + extension_or_empty(video),
        output_name_of(video, 1, fps) == stem_or_empty(video) + "_720p_"@ + decimal(fps as nat)
            + "fps_optimizado."@ + extension_or_empty(video),
        output_name_of(video, 2, fps) == stem_or_empty(video) + "_1080p_"@ + decimal(fps as nat)
            + "fps_optimizado."@ + extension_or_empty(video),
        output_name_of(video, 3, fps) == stem_or_empty(video) + "_original_"@ + decimal(fps as nat)
            + "fps_optimizado."@ + extension_or_empty(video),
        file_stem(video) matches Some(stem) ==> stem_or_empty(video) == stem,
        file_stem(video) is None ==> stem_or_empty(video).len() == 0,
        extension(video) matches Some(ext) ==> extension_or_empty(video) == ext,
        extension(video) is None ==> extension_or_empty(video).len() == 0,
{
    reveal_strlit("_");
    reveal_strlit("480p");
    reveal_strlit("720p");
    reveal_strlit("1080p");
    reveal_strlit("original");
    reveal_strlit("_480p_");
    reveal_strlit("_720p_");
    reveal_strlit("_1080p_");
    reveal_strlit("_original_");
    reveal_strlit("fps_optimizado");
    reveal_strlit(".");
    reveal_strlit("fps_optimizado.");
    assert("_480p_"@ =~= "_"@ + "480p"@ + "_"@);
    assert("_720p_"@ =~= "_"@ + "720p"@ + "_"@);
    assert("_1080p_"@ =~= "_"@ + "1080p"@ + "_"@);
    assert("_original_"@ =~= "_"@ + "original"@ + "_"@);
    assert("fps_optimizado."@ =~= "fps_optimizado"@ + "."@);
    let stem = stem_or_empty(video);
    let rate = decimal(fps as nat);
    let ext = extension_or_empty(video);
    assert(output_name_of(video, 0, fps) =~= stem + "_480p_"@ + rate + "fps_optimizado."@ + ext);
    assert(output_name_of(video, 1, fps) =~= stem + "_720p_"@ + rate + "fps_optimizado."@ + ext);
    assert(output_name_of(video, 2, fps) =~= stem + "_1080p_"@ + rate + "fps_optimizado."@ + ext);
    assert(output_name_of(video, 3, fps) =~= stem + "_original_"@ + rate + "fps_optimizado."@ + ext);
}

/// The stem of a result's name and the name itself agree: the name is the stem with the
/// extension of the video. Two rates never give the same name.
pub proof fn law_each_rate_has_its_result(video: Seq<char>, quality: nat, fps: u32, other: u32)
    ensures
        output_name_of(video, quality, fps) == output_stem_of(stem_or_empty(video), quality, fps)
            + "."@ + extension_or_empty(video),
        fps != other ==> output_name_of(video, quality, fps) != output_name_of(
            video,
            quality,
            other,
        ),
{
    reveal_strlit("_");
    reveal_strlit(".");
    reveal_strlit("fps_optimizado");
    let head = stem_or_empty(video) + "_"@ + quality_name_of(quality) + "_"@;
    let tail = "fps_optimizado"@ + "."@ + extension_or_empty(video);
    let a = decimal(fps as nat);
    let b = decimal(other as nat);
    let x = output_name_of(video, quality, fps);
    let y = output_name_of(video, quality, other);
    assert(x =~= head + a + tail);
    assert(y =~= head + b + tail);
    if x == y {
        assert(a.len() == b.len());
        assert(x.subrange(head.len() as int, (head.len() + a.len()) as int) =~= a);
        assert(y.subrange(head.len() as int, (head.len() + a.len()) as int) =~= b);
        lemma_decimal_digits(fps as nat);
        lemma_decimal_digits(other as nat);
    }
}

/// The result lies in the directory that it gets in the library, under its own name.
pub proof fn law_plan_puts_the_result_into_its_directory(
    plan: ConversionPlan,
    name: Seq<char>,
    folder: Seq<char>,
    library_dir: Seq<char>,
)
    ensures
        is_conversion_plan(plan, name, folder, library_dir) <==> plan.file_name@ == name
            && plan.directory@ == joined(library_dir, folder) && plan.output@ == joined(
            joined(library_dir, folder),
            name,
        ),
{
}

/// The result of a conversion lies in the library, in a directory of its own, so that
/// removing it removes nothing else.
pub proof fn law_result_has_its_own_directory(
    plan: ConversionPlan,
    video: Seq<char>,
    quality: nat,
    fps: u32,
    number: u64,
    library_dir: Seq<char>,
)
    requires
        is_conversion_plan(
            plan,
            output_name_of(video, quality, fps),
            numbered_name_of(output_stem_of(stem_or_empty(video), quality, fps), number),
            library_dir,
        ),
    ensures
        is_under(plan.output@, library_dir),
        has_parent(plan.output@),
        components(plan.output@).drop_last() == components(plan.directory@),
        components(plan.directory@).drop_last() == components(library_dir),
{
    let stem = output_stem_of(stem_or_empty(video), quality, fps);
    lemma_output_stem(video, quality, fps);
    lemma_output_name(video, quality, fps);
    lemma_numbered_name(stem, number);
    lemma_components_join(library_dir, numbered_name_of(stem, number));
    lemma_components_join(plan.directory@, output_name_of(video, quality, fps));
    let l = components(library_dir);
    assert(components(plan.output@).drop_last() =~= components(plan.directory@));
    assert(components(plan.directory@).drop_last() =~= l);
    assert(l =~= components(plan.output@).take(l.len() as int));
}

// The tool's arguments.

/// The arguments that all conversions share, up to the quality.
pub open spec fn common_arguments(input: Seq<char>) -> Seq<Seq<char>> {
    seq![
        "-loglevel"@,
        "info"@,
        "-progress"@,
        "pipe:1"@,
        "-i"@,
        input,
        "-an"@,
        "-movflags"@,
        "+faststart"@,
        "-g"@,
        "60"@,
        "-pix_fmt"@,
        "yuv420p"@,
        "-tune"@,
        "film"@,
        "-x264opts"@,
        "ref=3:bframes=3:b-adapt=2:direct=auto:me=umh:subme=8:trellis=2:psy-rd=1.0,0.15"@,
    ]
}

/// The arguments of a quality; none for one that is not on offer.
pub open spec fn quality_arguments(quality: nat, fps: u32) -> Option<Seq<Seq<char>>> {
    if quality == 0 {
        Some(
            seq![
                "-vf"@,
                "scale=854:480:force_original_aspect_ratio=decrease:flags=lanczos,pad=854:480:(ow-iw)/2:(oh-ih)/2"@,
                "-crf"@,
                "22"@,
                "-preset"@,
                "medium"@,
                "-c:v"@,
                "libx264"@,
                "-profile:v"@,
                "main"@,
                "-level"@,
                "3.1"@,
                "-r"@,
                decimal(fps as nat),
            ],
        )
    } else if quality == 1 {
        Some(
            seq![
                "-vf"@,
                "scale=1280:720:force_original_aspect_ratio=decrease:flags=lanczos,pad=1280:720:(ow-iw)/2:(oh-ih)/2"@,
                "-crf"@,
                "20"@,
                "-preset"@,
                "slow"@,
                "-c:v"@,
                "libx264"@,
                "-profile:v"@,
                "high"@,
                "-level"@,
                "3.1"@,
                "-r"@,
                decimal(fps as nat),
            ],
        )
    } else if quality == 2 {
        Some(
            seq![
                "-vf"@,
                "scale=1920:1080:force_original_aspect_ratio=decrease:flags=lanczos,pad=1920:1080:(ow-iw)/2:(oh-ih)/2"@,
                "-crf"@,
                "18"@,
                "-preset"@,
                "slower"@,
                "-c:v"@,
                "libx264"@,
                "-profile:v"@,
                "high"@,
                "-level"@,
                "4.0"@,
                "-aq-mode"@,
                "2"@,
                "-r"@,
                decimal(fps as nat),
            ],
        )
    } else if quality == 3 {
        Some(
            seq![
                "-crf"@,
                "16"@,
                "-preset"@,
                "veryslow"@,
                "-c:v"@,
                "libx264"@,
                "-profile:v"@,
                "high"@,
                "-aq-mode"@,
                "3"@,
                "-psy-rd"@,
                "1.0,0.15"@,
                "-r"@,
                decimal(fps as nat),
            ],
        )
    } else {
        None
    }
}

/// The arguments of a conversion; none for a quality that is not on offer.
pub open spec fn conversion_arguments_of(
    input: Seq<char>,
    output: Seq<char>,
    quality: nat,
    fps: u32,
) -> Option<Seq<Seq<char>>> {
    match quality_arguments(quality, fps) {
        Some(args) => Some(common_arguments(input) + args + seq!["-y"@, output]),
        None => None,
    }
}

/// Whatever the quality on offer and whatever the rate, the tool is told to make the result at
/// just that rate: the option for the rate stands directly before it.
pub proof fn law_tool_is_told_the_rate(input: Seq<char>, output: Seq<char>, quality: nat, fps: u32)
    requires
        quality < 4,
    ensures
        conversion_arguments_of(input, output, quality, fps) is Some,
        ({
            let args = conversion_arguments_of(input, output, quality, fps)->Some_0;
            exists|k: int|
                0 <= k < args.len() - 1 && #[trigger] args[k] == "-r"@ && args[k + 1] == decimal(
                    fps as nat,
                )
        }),
{
    let args = conversion_arguments_of(input, output, quality, fps)->Some_0;
    assert(args[args.len() - 4] == "-r"@);
    assert(args[args.len() - 3] == decimal(fps as nat));
    assert(args[args.len() - 4 + 1] == decimal(fps as nat));
}

/// The tool reads the video, writes the result, which it may overwrite, and makes it without
/// sound; the rate is the last thing that it is told before the result.
pub proof fn law_tool_reads_the_video_and_writes_the_result(
    input: Seq<char>,
    output: Seq<char>,
    quality: nat,
    fps: u32,
)
    requires
        quality < 4,
    ensures
        conversion_arguments_of(input, output, quality, fps) is Some,
        ({
            let args = conversion_arguments_of(input, output, quality, fps)->Some_0;
            let n = args.len() as int;
            &&& n > 10
            &&& args[4] == "-i"@ && args[5] == input
            &&& args[6] == "-an"@
            &&& args[n - 4] == "-r"@ && args[n - 3] == decimal(fps as nat)
            &&& args[n - 2] == "-y"@ && args[n - 1] == output
        }),
{
}

/// A quality that is not on offer has no arguments.
pub proof fn law_only_offered_qualities_are_made(
    input: Seq<char>,
    output: Seq<char>,
    quality: nat,
    fps: u32,
)
    ensures
        conversion_arguments_of(input, output, quality, fps) is Some <==> quality < 4,
{
}

/// Apart from the video, the result and the rate, the arguments depend on the quality alone.
pub proof fn law_quality_decides_the_other_arguments(
    input: Seq<char>,
    output: Seq<char>,
    fps: u32,
    other_input: Seq<char>,
    other_output: Seq<char>,
    other_fps: u32,
    quality: nat,
    k: int,
)
    requires
        quality < 4,
    ensures
        ({
            let args = conversion_arguments_of(input, output, quality, fps)->Some_0;
            let others = conversion_arguments_of(
                other_input,
                other_output,
                quality,
                other_fps,
            )->Some_0;
            let n = args.len() as int;
            &&& others.len() == n
            &&& 0 <= k < n && k != 5 && k != n - 3 && k != n - 1 ==> args[k] == others[k]
        }),
{
}

/// The result fits into the frame of its quality and is padded to it; only the last quality
/// keeps the size of the video.
pub proof fn law_quality_decides_the_size(input: Seq<char>, output: Seq<char>, fps: u32)
    ensures
        conversion_arguments_of(input, output, 0, fps)->Some_0[17] == "-vf"@,
        conversion_arguments_of(input, output, 0, fps)->Some_0[18]
            == "scale=854:480:force_original_aspect_ratio=decrease:flags=lanczos,pad=854:480:(ow-iw)/2:(oh-ih)/2"@,
        conversion_arguments_of(input, output, 1, fps)->Some_0[17] == "-vf"@,
        conversion_arguments_of(input, output, 1, fps)->Some_0[18]
            == "scale=1280:720:force_original_aspect_ratio=decrease:flags=lanczos,pad=1280:720:(ow-iw)/2:(oh-ih)/2"@,
        conversion_arguments_of(input, output, 2, fps)->Some_0[17] == "-vf"@,
        conversion_arguments_of(input, output, 2, fps)->Some_0[18]
            == "scale=1920:1080:force_original_aspect_ratio=decrease:flags=lanczos,pad=1920:1080:(ow-iw)/2:(oh-ih)/2"@,
        conversion_arguments_of(input, output, 3, fps)->Some_0[17] == "-crf"@,
{
}

fn push_texts(args: &mut Vec<String>, more: Vec<&str>)
    ensures
        texts(final(args)@) == texts(old(args)@) + more@.map_values(|s: &str| s@),
{
    let ghost before = texts(args@);
    let ghost wanted = more@.map_values(|s: &str| s@);
    assert(texts(args@) =~= before + wanted.take(0));
    for i in 0..more.len()
        invariant
            wanted == more@.map_values(|s: &str| s@),
            texts(args@) == before + wanted.take(i as int),
    {
        let ghost so_far = texts(args@);
        args.push(more[i].to_owned());
        assert(texts(args@) =~= so_far.push(wanted[i as int]));
        assert(wanted.take(i + 1) =~= wanted.take(i as int).push(wanted[i as int]));
        assert(texts(args@) =~= before + wanted.take(i + 1));
    }
    assert(wanted.take(wanted.len() as int) =~= wanted);
}

fn push_quality(args: &mut Vec<String>, quality: usize, fps: u32) -> (known: bool)
    ensures
        match quality_arguments(quality as nat, fps) {
            Some(more) => known && texts(final(args)@) == texts(old(args)@) + more,
            None => !known && texts(final(args)@) == texts(old(args)@),
        },
{
    let rate = decimal_text(fps as u64);
    let more: Vec<&str> = if quality == 0 {
        vec![
            "-vf",
            "scale=854:480:force_original_aspect_ratio=decrease:flags=lanczos,pad=854:480:(ow-iw)/2:(oh-ih)/2",
            "-crf",
            "22",
            "-preset",
            "medium",
            "-c:v",
            "libx264",
            "-profile:v",
            "main",
            "-level",
            "3.1",
            "-r",
            rate.as_str(),
        ]
    } else if quality == 1 {
        vec![
            "-vf",
            "scale=1280:720:force_original_aspect_ratio=decrease:flags=lanczos,pad=1280:720:(ow-iw)/2:(oh-ih)/2",
            "-crf",
            "20",
            "-preset",
            "slow",
            "-c:v",
            "libx264",
            "-profile:v",
            "high",
            "-level",
            "3.1",
            "-r",
            rate.as_str(),
        ]
    } else if quality == 2 {
        vec![
            "-vf",
            "scale=1920:1080:force_original_aspect_ratio=decrease:flags=lanczos,pad=1920:1080:(ow-iw)/2:(oh-ih)/2",
            "-crf",
            "18",
            "-preset",
            "slower",
            "-c:v",
            "libx264",
            "-profile:v",
            "high",
            "-level",
            "4.0",
            "-aq-mode",
            "2",
            "-r",
            rate.as_str(),
        ]
    } else if quality == 3 {
        vec![
            "-crf",
            "16",
            "-preset",
            "veryslow",
            "-c:v",
            "libx264",
            "-profile:v",
            "high",
            "-aq-mode",
            "3",
            "-psy-rd",
            "1.0,0.15",
            "-r",
            rate.as_str(),
        ]
    } else {
        return false;
    };
    assert(more@.map_values(|s: &str| s@) =~= quality_arguments(quality as nat, fps)->Some_0);
    push_texts(args, more);
    true
}

/// The arguments of a conversion; none for a quality that is not on offer.
pub fn conversion_arguments(input_path: &str, output_path: &str, quality: usize, fps: u32) -> (args:
    Option<Vec<String>>)
    ensures
        match conversion_arguments_of(input_path@, output_path@, quality as nat, fps) {
            Some(wanted) => args is Some && texts(args->Some_0@) == wanted,
            None => args is None,
        },
{
    let mut args: Vec<String> = Vec::new();
    let common: Vec<&str> = vec![
        "-loglevel",
        "info",
        "-progress",
        "pipe:1",
        "-i",
        input_path,
        "-an",
        "-movflags",
        "+faststart",
        "-g",
        "60",
        "-pix_fmt",
        "yuv420p",
        "-tune",
        "film",
        "-x264opts",
        "ref=3:bframes=3:b-adapt=2:direct=auto:me=umh:subme=8:trellis=2:psy-rd=1.0,0.15",
    ];
    assert(common@.map_values(|s: &str| s@) =~= common_arguments(input_path@));
    push_texts(&mut args, common);
    assert(texts(args@) =~= common_arguments(input_path@));
    if !push_quality(&mut args, quality, fps) {
        return None;
    }
    let last: Vec<&str> = vec!["-y", output_path];
    assert(last@.map_values(|s: &str| s@) =~= seq!["-y"@, output_path@]);
    push_texts(&mut args, last);
    Some(args)
}

/// The arguments of the probe for a video's duration.
pub fn duration_probe_arguments(video_path: &str) -> (args: Vec<String>)
    ensures
        texts(args@) == seq![
            "-v"@,
            "quiet"@,
            "-print_format"@,
            "csv=p=0"@,
            "-show_entries"@,
            "format=duration"@,
            video_path@,
        ],
{
    let mut args: Vec<String> = Vec::new();
    let all: Vec<&str> = vec![
        "-v",
        "quiet",
        "-print_format",
        "csv=p=0",
        "-show_entries",
        "format=duration",
        video_path,
    ];
    assert(all@.map_values(|s: &str| s@) =~= seq![
        "-v"@,
        "quiet"@,
        "-print_format"@,
        "csv=p=0"@,
        "-show_entries"@,
        "format=duration"@,
        video_path@,
    ]);
    push_texts(&mut args, all);
    assert(texts(args@) =~= all@.map_values(|s: &str| s@));
    args
}

// Progress.

/// Messages of the conversion about its progress.
#[derive(Debug)]
pub enum ProgressMessage {
    Started,
    Progress { percentage: i32 },
    Status(String),
    /// The conversion is over; whether it succeeded.
    Completed(bool),
}

/// A message about the progress, as plain values.
pub enum MessageView {
    Started,
    Progress(i32),
    Status(Seq<char>),
    Completed(bool),
}

impl View for ProgressMessage {
    type V = MessageView;

    open spec fn view(&self) -> MessageView {
        match *self {
            ProgressMessage::Started => MessageView::Started,
            ProgressMessage::Progress { percentage } => MessageView::Progress(percentage),
            ProgressMessage::Status(text) => MessageView::Status(text@),
            ProgressMessage::Completed(success) => MessageView::Completed(success),
        }
    }
}

/// The messages, as plain values.
pub open spec fn message_views(messages: Seq<ProgressMessage>) -> Seq<MessageView> {
    messages.map_values(|m: ProgressMessage| m@)
}

/// Messages about the progress are seen as they are: each with what it tells, in order.
pub proof fn law_messages_are_seen_as_they_are(
    messages: Seq<ProgressMessage>,
    i: int,
    percentage: i32,
    text: String,
    success: bool,
)
    ensures
        message_views(messages).len() == messages.len(),
        0 <= i < messages.len() ==> message_views(messages)[i] == messages[i]@,
        ProgressMessage::Started@ == MessageView::Started,
        (ProgressMessage::Progress { percentage })@ == MessageView::Progress(percentage),
        ProgressMessage::Status(text)@ == MessageView::Status(text@),
        ProgressMessage::Completed(success)@ == MessageView::Completed(success),
{
}

/// The messages at the beginning of a conversion.
pub fn opening_messages() -> (messages: Vec<ProgressMessage>)
    ensures
        message_views(messages@) == seq![
            MessageView::Started,
            MessageView::Status("Analizando video..."@),
        ],
{
    let messages = vec![
        ProgressMessage::Started,
        ProgressMessage::Status("Analizando video...".to_owned()),
    ];
    assert(message_views(messages@) =~= seq![
        MessageView::Started,
        MessageView::Status("Analizando video..."@),
    ]);
    messages
}

/// The message right before the tool is started.
pub fn launching_message() -> (message: ProgressMessage)
    ensures
        message@ == MessageView::Status("Iniciando conversión con ffmpeg..."@),
{
    ProgressMessage::Status("Iniciando conversión con ffmpeg...".to_owned())
}

/// The time that a line of the tool's progress gives, in microseconds; none for
/// other lines.
pub fn progress_time(line: &str) -> (time: Option<String>)
    ensures
        opt_text(time) == after_prefix(line@, "out_time_ms="@),
{
    strip_prefix(line, "out_time_ms=")
}

/// How a conversion ended.
#[derive(Debug)]
pub enum ConversionEnd {
    /// The quality is not on offer.
    UnknownQuality,
    /// The tool could not be started.
    NotStarted(String),
    /// The tool could not be waited for.
    WaitFailed(String),
    /// The tool failed.
    Failed,
    /// The tool succeeded.
    Succeeded,
}

/// The messages at the end of a conversion.
pub open spec fn closing_messages_of(end: ConversionEnd) -> Seq<MessageView> {
    match end {
        ConversionEnd::UnknownQuality => seq![MessageView::Completed(false)],
        ConversionEnd::NotStarted(e) => seq![
            MessageView::Status("❌ No se pudo ejecutar ffmpeg: "@ + e@),
            MessageView::Completed(false),
        ],
        ConversionEnd::WaitFailed(e) => seq![
            MessageView::Status("❌ Error: "@ + e@),
            MessageView::Completed(false),
        ],
        ConversionEnd::Failed => seq![
            MessageView::Status("❌ Error en la conversión"@),
            MessageView::Completed(false),
        ],
        ConversionEnd::Succeeded => seq![
            MessageView::Progress(100),
            MessageView::Status("✅ Conversión completada"@),
            MessageView::Completed(true),
        ],
    }
}

/// The messages at the end of a conversion. The last one says how it ended.
pub fn closing_messages(end: ConversionEnd) -> (messages: Vec<ProgressMessage>)
    ensures
        message_views(messages@) == closing_messages_of(end),
{
    let mut messages: Vec<ProgressMessage> = Vec::new();
    let ghost ended = end;
    let mut success = false;
    match end {
        ConversionEnd::UnknownQuality => {},
        ConversionEnd::NotStarted(e) => {
            messages.push(
                ProgressMessage::Status(
                    "❌ No se pudo ejecutar ffmpeg: ".to_owned().concat(e.as_str()),
                ),
            );
        },
        ConversionEnd::WaitFailed(e) => {
            messages.push(ProgressMessage::Status("❌ Error: ".to_owned().concat(e.as_str())));
        },
        ConversionEnd::Failed => {
            messages.push(ProgressMessage::Status("❌ Error en la conversión".to_owned()));
        },
        ConversionEnd::Succeeded => {
            messages.push(ProgressMessage::Progress { percentage: 100 });
            messages.push(ProgressMessage::Status("✅ Conversión completada".to_owned()));
            success = true;
        },
    }
    messages.push(ProgressMessage::Completed(success));
    assert(message_views(messages@) =~= closing_messages_of(ended));
    messages
}

// The course of a conversion.

/// What happened last in a conversion.
#[derive(Debug)]
pub enum ConversionEvent {
    /// It begins.
    Begun,
    /// The video's duration was asked for.
    Analyzed,
    /// The tool was started, or why it was not.
    Started(Result<(), String>),
    /// The tool told how far it is.
    Reported { percentage: i32, status: String },
    /// The tool is done: whether it succeeded, or why it could not be waited for.
    Ended(Result<bool, String>),
}

/// What happened last in a conversion, as plain values.
pub enum EventView {
    Begun,
    Analyzed,
    Started(Option<Seq<char>>),
    Reported(i32, Seq<char>),
    Ended(Result<bool, Seq<char>>),
}

impl View for ConversionEvent {
    type V = EventView;

    open spec fn view(&self) -> EventView {
        match *self {
            ConversionEvent::Begun => EventView::Begun,
            ConversionEvent::Analyzed => EventView::Analyzed,
            ConversionEvent::Started(Ok(_)) => EventView::Started(None),
            ConversionEvent::Started(Err(e)) => EventView::Started(Some(e@)),
            ConversionEvent::Reported { percentage, status } => EventView::Reported(
                percentage,
                status@,
            ),
            ConversionEvent::Ended(Ok(success)) => EventView::Ended(Ok(success)),
            ConversionEvent::Ended(Err(e)) => EventView::Ended(Err(e@)),
        }
    }
}

/// What to do next in a conversion.
#[derive(Debug)]
pub enum ConversionAction {
    /// Ask for the video's duration.
    Analyze,
    /// Start the tool with the given arguments.
    Start(Vec<String>),
    /// Read on until the tool tells how far it is, or is done.
    Read,
    /// Nothing more; whether the conversion succeeded.
    Finish(bool),
}

/// What to do next in a conversion, as plain values.
pub enum ActionView {
    Analyze,
    Start(Seq<Seq<char>>),
    Read,
    Finish(bool),
}

impl View for ConversionAction {
    type V = ActionView;

    open spec fn view(&self) -> ActionView {
        match *self {
            ConversionAction::Analyze => ActionView::Analyze,
            ConversionAction::Start(arguments) => ActionView::Start(texts(arguments@)),
            ConversionAction::Read => ActionView::Read,
            ConversionAction::Finish(success) => ActionView::Finish(success),
        }
    }
}

/// What happens in a conversion, and what is to be done, is seen as it is: with every reason,
/// report and argument.
pub proof fn law_conversion_is_seen_as_it_is(
    percentage: i32,
    text: String,
    success: bool,
    arguments: Vec<String>,
)
    ensures
        ConversionEvent::Begun@ == EventView::Begun,
        ConversionEvent::Analyzed@ == EventView::Analyzed,
        ConversionEvent::Started(Ok(()))@ == EventView::Started(None),
        ConversionEvent::Started(Err(text))@ == EventView::Started(Some(text@)),
        (ConversionEvent::Reported { percentage, status: text })@ == EventView::Reported(
            percentage,
            text@,
        ),
        ConversionEvent::Ended(Ok(success))@ == EventView::Ended(Ok(success)),
        ConversionEvent::Ended(Err(text))@ == EventView::Ended(Err(text@)),
        ConversionAction::Analyze@ == ActionView::Analyze,
        ConversionAction::Start(arguments)@ == ActionView::Start(texts(arguments@)),
        ConversionAction::Read@ == ActionView::Read,
        ConversionAction::Finish(success)@ == ActionView::Finish(success),
{
}

/// What follows from what happened last in a conversion.
pub struct ConversionStep {
    /// The messages to send, in order.
    pub messages: Vec<ProgressMessage>,
    /// What to do next.
    pub action: ConversionAction,
}

/// A percentage, at most a hundred.
pub open spec fn capped(percentage: i32) -> i32 {
    if percentage > 100 {
        100
    } else {
        percentage
    }
}

/// The messages that follow from what happened last.
pub open spec fn conversion_messages(quality: nat, seen: EventView) -> Seq<MessageView> {
    match seen {
        EventView::Begun => seq![
            MessageView::Started,
            MessageView::Status("Analizando video..."@),
        ],
        EventView::Analyzed => if quality < 4 {
            seq![MessageView::Status("Iniciando conversión con ffmpeg..."@)]
        } else {
            seq![MessageView::Completed(false)]
        },
        EventView::Started(None) => Seq::<MessageView>::empty(),
        EventView::Started(Some(e)) => seq![
            MessageView::Status("❌ No se pudo ejecutar ffmpeg: "@ + e),
            MessageView::Completed(false),
        ],
        EventView::Reported(percentage, status) => seq![
            MessageView::Progress(capped(percentage)),
            MessageView::Status(status),
        ],
        EventView::Ended(Ok(true)) => seq![
            MessageView::Progress(100),
            MessageView::Status("✅ Conversión completada"@),
            MessageView::Completed(true),
        ],
        EventView::Ended(Ok(false)) => seq![
            MessageView::Status("❌ Error en la conversión"@),
            MessageView::Completed(false),
        ],
        EventView::Ended(Err(e)) => seq![
            MessageView::Status("❌ Error: "@ + e),
            MessageView::Completed(false),
        ],
    }
}

/// What to do after what happened last.
pub open spec fn conversion_action(
    input: Seq<char>,
    output: Seq<char>,
    quality: nat,
    fps: u32,
    seen: EventView,
) -> ActionView {
    match seen {
        EventView::Begun => ActionView::Analyze,
        EventView::Analyzed => match conversion_arguments_of(input, output, quality, fps) {
            Some(arguments) => ActionView::Start(arguments),
            None => ActionView::Finish(false),
        },
        EventView::Started(None) => ActionView::Read,
        EventView::Started(Some(_)) => ActionView::Finish(false),
        EventView::Reported(..) => ActionView::Read,
        EventView::Ended(Ok(success)) => ActionView::Finish(success),
        EventView::Ended(Err(_)) => ActionView::Finish(false),
    }
}

/// Converts a video, step by step: given what happened last, which messages to send and
/// what to do next.
pub fn perform_video_conversion_with_progress(
    input_path: &str,
    output_path: &str,
    quality: usize,
    fps: u32,
    seen: ConversionEvent,
) -> (step: ConversionStep)
    ensures
        message_views(step.messages@) == conversion_messages(quality as nat, seen@),
        step.action@ == conversion_action(input_path@, output_path@, quality as nat, fps, seen@),
{
    let ghost event = seen@;
    match seen {
        ConversionEvent::Begun => ConversionStep {
            messages: opening_messages(),
            action: ConversionAction::Analyze,
        },
        ConversionEvent::Analyzed => {
            match conversion_arguments(input_path, output_path, quality, fps) {
                Some(arguments) => {
                    let messages = vec![launching_message()];
                    assert(message_views(messages@) =~= conversion_messages(quality as nat, event));
                    ConversionStep { messages, action: ConversionAction::Start(arguments) }
                },
                None => ConversionStep {
                    messages: closing_messages(ConversionEnd::UnknownQuality),
                    action: ConversionAction::Finish(false),
                },
            }
        },
        ConversionEvent::Started(Ok(_)) => {
            let messages: Vec<ProgressMessage> = Vec::new();
            assert(message_views(messages@) =~= conversion_messages(quality as nat, event));
            ConversionStep { messages, action: ConversionAction::Read }
        },
        ConversionEvent::Started(Err(e)) => ConversionStep {
            messages: closing_messages(ConversionEnd::NotStarted(e)),
            action: ConversionAction::Finish(false),
        },
        ConversionEvent::Reported { percentage, status } => {
            let shown: i32 = if percentage > 100 {
                100
            } else {
                percentage
            };
            let messages = vec![
                ProgressMessage::Progress { percentage: shown },
                ProgressMessage::Status(status),
            ];
            assert(message_views(messages@) =~= conversion_messages(quality as nat, event));
            ConversionStep { messages, action: ConversionAction::Read }
        },
        ConversionEvent::Ended(Ok(success)) => {
            let end = if success {
                ConversionEnd::Succeeded
            } else {
                ConversionEnd::Failed
            };
            ConversionStep {
                messages: closing_messages(end),
                action: ConversionAction::Finish(success),
            }
        },
        ConversionEvent::Ended(Err(e)) => ConversionStep {
            messages: closing_messages(ConversionEnd::WaitFailed(e)),
            action: ConversionAction::Finish(false),
        },
    }
}

/// How the tool answers in the course of a conversion.
pub struct ToolAnswers {
    /// Why it cannot be started, if it cannot.
    pub start_error: Option<Seq<char>>,
    /// What it tells about how far it is, in order.
    pub reports: Seq<(i32, Seq<char>)>,
    /// How it ends.
    pub end: Result<bool, Seq<char>>,
}

/// How far a conversion is from its end, apart from the reports to come.
pub open spec fn stages_left(seen: EventView) -> nat {
    match seen {
        EventView::Begun => 4,
        EventView::Analyzed => 3,
        EventView::Started(_) => 2,
        EventView::Reported(..) => 1,
        EventView::Ended(_) => 0,
    }
}

/// What happens when `action` is taken and `told` reports were read before; nothing after
/// the last action.
pub open spec fn conversion_answer(tool: ToolAnswers, action: ActionView, told: nat) -> Option<
    EventView,
> {
    match action {
        ActionView::Analyze => Some(EventView::Analyzed),
        ActionView::Start(_) => Some(EventView::Started(tool.start_error)),
        ActionView::Read => if told < tool.reports.len() {
            Some(EventView::Reported(tool.reports[told as int].0, tool.reports[told as int].1))
        } else {
            Some(EventView::Ended(tool.end))
        },
        ActionView::Finish(_) => None,
    }
}

/// All messages of a conversion from `seen` on, where `told` reports were read so far, and
/// whether it succeeds.
pub open spec fn conversion_course(
    input: Seq<char>,
    output: Seq<char>,
    quality: nat,
    fps: u32,
    tool: ToolAnswers,
    seen: EventView,
    told: nat,
) -> (Seq<MessageView>, bool)
    decreases stages_left(seen), tool.reports.len() - told,
{
    let messages = conversion_messages(quality, seen);
    let action = conversion_action(input, output, quality, fps, seen);
    match conversion_answer(tool, action, told) {
        Some(next) => {
            let told_next = if next is Reported {
                told + 1
            } else {
                told
            };
            let rest = conversion_course(input, output, quality, fps, tool, next, told_next);
            (messages + rest.0, rest.1)
        },
        None => (messages, action == ActionView::Finish(true)),
    }
}

/// Exactly the last message says that the conversion is over, with the given success, and
/// no percentage is above a hundred.
pub open spec fn ends_once(messages: Seq<MessageView>, success: bool) -> bool {
    &&& messages.len() > 0
    &&& messages.last() == MessageView::Completed(success)
    &&& forall|i: int| 0 <= i < messages.len() - 1 ==> !(#[trigger] messages[i] is Completed)
    &&& forall|i: int|
        0 <= i < messages.len() ==> (#[trigger] messages[i] matches MessageView::Progress(p) ==> p
            <= 100)
}

proof fn lemma_course_ends_once(
    input: Seq<char>,
    output: Seq<char>,
    quality: nat,
    fps: u32,
    tool: ToolAnswers,
    seen: EventView,
    told: nat,
)
    ensures
        ({
            let course = conversion_course(input, output, quality, fps, tool, seen, told);
            &&& ends_once(course.0, course.1)
            &&& course.1 <==> match seen {
                EventView::Begun | EventView::Analyzed => quality <= 3 && tool.start_error is None
                    && tool.end == Ok::<bool, Seq<char>>(true),
                EventView::Started(e) => e is None && tool.end == Ok::<bool, Seq<char>>(true),
                EventView::Reported(..) => tool.end == Ok::<bool, Seq<char>>(true),
                EventView::Ended(end) => end == Ok::<bool, Seq<char>>(true),
            }
        }),
    decreases stages_left(seen), tool.reports.len() - told,
{
    let messages = conversion_messages(quality, seen);
    let action = conversion_action(input, output, quality, fps, seen);
    if let Some(next) = conversion_answer(tool, action, told) {
        let told_next = if next is Reported {
            told + 1
        } else {
            told
        };
        lemma_course_ends_once(input, output, quality, fps, tool, next, told_next);
        let rest = conversion_course(input, output, quality, fps, tool, next, told_next).0;
        let all = messages + rest;
        assert(all.last() == rest.last());
        assert forall|i: int| 0 <= i < all.len() - 1 implies !(#[trigger] all[i] is Completed) by {
            if i >= messages.len() {
                assert(all[i] == rest[i - messages.len()]);
            } else {
                assert(all[i] == messages[i]);
            }
        }
        assert forall|i: int| 0 <= i < all.len() implies (
        #[trigger] all[i] matches MessageView::Progress(p) ==> p <= 100) by {
            if i >= messages.len() {
                assert(all[i] == rest[i - messages.len()]);
            } else {
                assert(all[i] == messages[i]);
            }
        }
    }
}

/// Every conversion, whatever is asked for and however the tool answers, first says that
/// it has started and that the video is analyzed, and for a quality on offer next that the
/// tool is started; it ends with exactly one message that it is over. That message tells success exactly when the quality is on offer, the tool
/// could be started and waited for, and the tool succeeded. No percentage is above a
/// hundred.
pub proof fn law_conversion_ends_once(
    input: Seq<char>,
    output: Seq<char>,
    quality: nat,
    fps: u32,
    tool: ToolAnswers,
)
    ensures
        ({
            let course = conversion_course(
                input,
                output,
                quality,
                fps,
                tool,
                EventView::Begun,
                0,
            );
            &&& course.0[0] == MessageView::Started
            &&& course.0[1] == MessageView::Status("Analizando video..."@)
            &&& quality <= 3 ==> course.0[2] == MessageView::Status(
                "Iniciando conversión con ffmpeg..."@,
            )
            &&& ends_once(course.0, course.1)
            &&& course.1 <==> quality <= 3 && tool.start_error is None && tool.end == Ok::<
                bool,
                Seq<char>,
            >(true)
        }),
{
    reveal_with_fuel(conversion_course, 2);
    lemma_course_ends_once(input, output, quality, fps, tool, EventView::Begun, 0);
}

/// What the tool tells is passed on: the percentage, cut off at a hundred and otherwise as it
/// is, then the status as it is. And it is read on.
pub proof fn law_report_is_passed_on(
    input: Seq<char>,
    output: Seq<char>,
    quality: nat,
    fps: u32,
    percentage: i32,
    status: Seq<char>,
)
    ensures
        ({
            let messages = conversion_messages(quality, EventView::Reported(percentage, status));
            &&& messages.len() == 2
            &&& percentage <= 100 ==> messages[0] == MessageView::Progress(percentage)
            &&& percentage > 100 ==> messages[0] == MessageView::Progress(100)
            &&& messages[1] == MessageView::Status(status)
        }),
        conversion_action(input, output, quality, fps, EventView::Reported(percentage, status))
            == ActionView::Read,
{
}

/// The tool is started with the arguments of the conversion once the video was analyzed, and
/// is then read until it is done.
pub proof fn law_tool_gets_the_arguments(
    input: Seq<char>,
    output: Seq<char>,
    quality: nat,
    fps: u32,
)
    ensures
        conversion_action(input, output, quality, fps, EventView::Begun) == ActionView::Analyze,
        conversion_arguments_of(input, output, quality, fps) matches Some(arguments)
            ==> conversion_action(input, output, quality, fps, EventView::Analyzed)
            == ActionView::Start(arguments),
        conversion_action(input, output, quality, fps, EventView::Started(None))
            == ActionView::Read,
        conversion_messages(quality, EventView::Started(None)).len() == 0,
{
}

/// A failure is told with its reason, and at once before the message that it is over; the
/// messages at the end are the same whether they come from the course or stand for themselves.
pub proof fn law_failure_tells_its_reason(quality: nat, reason: String)
    ensures
        conversion_messages(quality, EventView::Started(Some(reason@))) == seq![
            MessageView::Status("❌ No se pudo ejecutar ffmpeg: "@ + reason@),
            MessageView::Completed(false),
        ],
        conversion_messages(quality, EventView::Ended(Err(reason@))) == seq![
            MessageView::Status("❌ Error: "@ + reason@),
            MessageView::Completed(false),
        ],
        conversion_messages(quality, EventView::Started(Some(reason@))) == closing_messages_of(
            ConversionEnd::NotStarted(reason),
        ),
        conversion_messages(quality, EventView::Ended(Err(reason@))) == closing_messages_of(
            ConversionEnd::WaitFailed(reason),
        ),
        conversion_messages(quality, EventView::Ended(Ok(false))) == closing_messages_of(
            ConversionEnd::Failed,
        ),
        conversion_messages(quality, EventView::Ended(Ok(true))) == closing_messages_of(
            ConversionEnd::Succeeded,
        ),
        conversion_messages(quality, EventView::Ended(Ok(true))) == seq![
            MessageView::Progress(100),
            MessageView::Status("✅ Conversión completada"@),
            MessageView::Completed(true),
        ],
        conversion_messages(quality, EventView::Ended(Ok(false))) == seq![
            MessageView::Status("❌ Error en la conversión"@),
            MessageView::Completed(false),
        ],
        quality >= 4 ==> conversion_messages(quality, EventView::Analyzed) == closing_messages_of(
            ConversionEnd::UnknownQuality,
        ),
{
}

/// The files that are being written by a conversion.
#[derive(Debug)]
pub struct ConvertingFiles {
    files: Vec<String>,
}

impl View for ConvertingFiles {
    type V = Set<Seq<char>>;

    closed spec fn view(&self) -> Set<Seq<char>> {
        texts(self.files@).to_set()
    }
}

impl ConvertingFiles {
    /// No file.
    pub fn new() -> (c: Self)
        ensures
            c@ == Set::<Seq<char>>::empty(),
    {
        let c = ConvertingFiles { files: Vec::new() };
        assert(c@ =~= Set::<Seq<char>>::empty());
        c
    }

    /// Whether a file is being written.
    pub fn contains(&self, path: &str) -> (r: bool)
        ensures
            r == self@.contains(path@),
    {
        for i in 0..self.files.len()
            invariant
                forall|j: int| 0 <= j < i ==> texts(self.files@)[j] != path@,
        {
            assert(texts(self.files@)[i as int] == self.files@[i as int]@);
            if same_text(self.files[i].as_str(), path) {
                assert(texts(self.files@).contains(path@));
                return true;
            }
        }
        false
    }

    /// Marks a file as being written.
    pub fn insert(&mut self, path: &str)
        ensures
            final(self)@ == old(self)@.insert(path@),
    {
        let ghost before = texts(self.files@);
        self.files.push(path.to_owned());
        proof {
            let after = texts(self.files@);
            assert(after =~= before.push(path@));
            assert forall|p: Seq<char>| after.contains(p) <==> (before.contains(p) || p == path@) by {
                if before.contains(p) {
                    let k = choose|k: int| 0 <= k < before.len() && before[k] == p;
                    assert(after[k] == p);
                }
                if p == path@ {
                    assert(after[before.len() as int] == p);
                }
                if after.contains(p) {
                    let k = choose|k: int| 0 <= k < after.len() && after[k] == p;
                    if k < before.len() {
                        assert(before[k] == p);
                    }
                }
            }
            assert(self@ =~= old(self)@.insert(path@));
        }
    }

    /// Marks a file as written.
    pub fn remove(&mut self, path: &str)
        ensures
            final(self)@ == old(self)@.remove(path@),
    {
        let ghost before = texts(self.files@);
        let mut kept: Vec<String> = Vec::new();
        for i in 0..self.files.len()
            invariant
                before == texts(self.files@),
                forall|p: Seq<char>|
                    #![trigger texts(kept@).contains(p)]
                    texts(kept@).contains(p) <==> (before.take(i as int).contains(p) && p != path@),
        {
            let ghost kept_before = texts(kept@);
            let file = &self.files[i];
            let same = same_text(file.as_str(), path);
            if !same {
                kept.push(file.clone());
            }
            proof {
                let item = before[i as int];
                assert(item == file@);
                assert(before.take(i + 1) =~= before.take(i as int).push(item));
                assert forall|p: Seq<char>|
                    #![trigger texts(kept@).contains(p)]
                    texts(kept@).contains(p) <==> (before.take(i + 1).contains(p) && p != path@) by {
                    lemma_push_contains(before.take(i as int), item, p);
                    if !same {
                        assert(texts(kept@) =~= kept_before.push(item));
                        lemma_push_contains(kept_before, item, p);
                    }
                    assert(kept_before.contains(p) <==> (before.take(i as int).contains(p) && p
                        != path@));
                }
            }
        }
        assert(before.take(before.len() as int) =~= before);
        self.files = kept;
        assert(self@ =~= old(self)@.remove(path@));
    }
}

proof fn lemma_push_contains(s: Seq<Seq<char>>, item: Seq<char>, p: Seq<char>)
    ensures
        s.push(item).contains(p) <==> (s.contains(p) || p == item),
{
    let t = s.push(item);
    if s.contains(p) {
        let k = choose|k: int| 0 <= k < s.len() && s[k] == p;
        assert(t[k] == p);
    }
    if p == item {
        assert(t[s.len() as int] == p);
    }
    if t.contains(p) {
        let k = choose|k: int| 0 <= k < t.len() && t[k] == p;
        if k < s.len() {
            assert(s[k] == p);
        }
    }
}

/// A conversion begins: its result is marked as being written, and monitoring is
/// paused until it is over.
pub fn begin_conversion(monitoring: &mut Monitoring, converting: &mut ConvertingFiles, output_path: &str)
    ensures
        final(monitoring)@ == paused(old(monitoring)@),
        final(converting)@ == old(converting)@.insert(output_path@),
{
    converting.insert(output_path);
    monitoring.pause_monitoring();
}

/// What a look at the progress found.
#[derive(Debug)]
pub enum ProgressEvent {
    Message(ProgressMessage),
    /// No message.
    Nothing,
    /// The conversion is gone without a word.
    Closed,
}

/// What to show after a look at the progress.
#[derive(Debug)]
pub enum ProgressView {
    /// The conversion has begun: no progress yet, with the given label and status.
    Begin { label: String, status: String },
    /// So many percent, with the given label.
    Percentage { percentage: i32, label: String },
    /// Another status.
    Status(String),
    /// The conversion succeeded: the window is to be closed, the picture and the
    /// preview of the result are to be prepared.
    Succeeded,
    /// The conversion failed: the window is to be closed.
    Failed,
    /// The conversion is gone: the window is to be closed.
    Lost,
    /// Nothing new.
    Unchanged,
}

/// The markup of a status.
pub open spec fn status_markup(status: Seq<char>) -> Seq<char> {
    "<span size='small' color='#888'>"@ + status + "</span>"@
}

fn markup(status: &str) -> (text: String)
    ensures
        text@ == status_markup(status@),
{
    "<span size='small' color='#888'>".to_owned().concat(status).concat("</span>")
}

/// `shown` is what to show for what was found.
pub open spec fn shows_progress(event: ProgressEvent, shown: ProgressView) -> bool {
    match event {
        ProgressEvent::Message(ProgressMessage::Started) => shown matches ProgressView::Begin {
            label,
            status,
        } && label@ == "0%"@ && status@ == status_markup("Analizando video..."@),
        ProgressEvent::Message(
            ProgressMessage::Progress { percentage: p },
        ) => shown matches ProgressView::Percentage { percentage, label } && percentage == p
            && label@ == signed_decimal(p as int) + "%"@,
        ProgressEvent::Message(ProgressMessage::Status(text)) => shown matches ProgressView::Status(
            status,
        ) && status@ == status_markup(text@),
        ProgressEvent::Message(ProgressMessage::Completed(success)) => if success {
            shown is Succeeded
        } else {
            shown is Failed
        },
        ProgressEvent::Nothing => shown is Unchanged,
        ProgressEvent::Closed => shown is Lost,
    }
}

/// The conversion is over.
pub open spec fn is_over(shown: ProgressView) -> bool {
    shown is Succeeded || shown is Failed || shown is Lost
}

/// Monitoring after a look at the progress: it goes on as soon as the conversion is over,
/// however it ended.
pub open spec fn monitoring_after(
    m: MonitoringView,
    shown: ProgressView,
    now: u128,
) -> MonitoringView {
    if is_over(shown) {
        resumed(now)
    } else {
        m
    }
}

/// The files that are marked as being written after a look at the progress. A result that
/// was not brought to its end stays marked: no picture can be made of it.
pub open spec fn marked_after(
    files: Set<Seq<char>>,
    shown: ProgressView,
    output: Seq<char>,
) -> Set<Seq<char>> {
    if shown is Succeeded {
        files.remove(output)
    } else {
        files
    }
}

/// Takes up what a look at the progress found. When the conversion is over monitoring is
/// resumed, and when it has succeeded its result is no longer marked as being written.
pub fn take_progress(
    monitoring: &mut Monitoring,
    converting: &mut ConvertingFiles,
    output_path: &str,
    event: ProgressEvent,
    now: u128,
) -> (shown: ProgressView)
    ensures
        shows_progress(event, shown),
        final(monitoring)@ == monitoring_after(old(monitoring)@, shown, now),
        final(converting)@ == marked_after(old(converting)@, shown, output_path@),
{
    match event {
        ProgressEvent::Message(message) => match message {
            ProgressMessage::Started => ProgressView::Begin {
                label: "0%".to_owned(),
                status: markup("Analizando video..."),
            },
            ProgressMessage::Progress { percentage } => ProgressView::Percentage {
                percentage,
                label: signed_decimal_text(percentage).concat("%"),
            },
            ProgressMessage::Status(text) => ProgressView::Status(markup(text.as_str())),
            ProgressMessage::Completed(success) => {
                monitoring.resume_monitoring(now);
                if success {
                    converting.remove(output_path);
                    ProgressView::Succeeded
                } else {
                    ProgressView::Failed
                }
            },
        },
        ProgressEvent::Nothing => ProgressView::Unchanged,
        ProgressEvent::Closed => {
            monitoring.resume_monitoring(now);
            ProgressView::Lost
        },
    }
}

/// However a conversion ends, it undoes what its beginning did to monitoring: paused until
/// then, it goes on, with an update due. A conversion that succeeds also leaves the marks
/// as it found them, when its result was not being written before.
pub proof fn law_end_undoes_the_beginning(
    monitoring: MonitoringView,
    files: Set<Seq<char>>,
    output: Seq<char>,
    shown: ProgressView,
    now: u128,
)
    ensures
        paused(monitoring).paused,
        files.insert(output).contains(output),
        !is_over(shown) ==> monitoring_after(paused(monitoring), shown, now).paused,
        is_over(shown) ==> !monitoring_after(paused(monitoring), shown, now).paused
            && monitoring_after(paused(monitoring), shown, now).pending,
        shown is Succeeded && !files.contains(output) ==> marked_after(
            files.insert(output),
            shown,
            output,
        ) == files,
{
    assert(!files.contains(output) ==> files.insert(output).remove(output) =~= files);
}

/// Progress is shown as it was told: the very percentage with its label, the very status in its
/// markup, and an end as what it is.
pub proof fn law_progress_is_shown_as_told(event: ProgressEvent, shown: ProgressView)
    requires
        shows_progress(event, shown),
    ensures
        event matches ProgressEvent::Message(ProgressMessage::Progress { percentage: p }) ==> (
        shown matches ProgressView::Percentage { percentage, label } && percentage == p && label@
            == signed_decimal(p as int) + "%"@),
        event matches ProgressEvent::Message(ProgressMessage::Status(text)) ==> (
        shown matches ProgressView::Status(status) && status@ == "<span size='small' color='#888'>"@
            + text@ + "</span>"@),
        event matches ProgressEvent::Message(ProgressMessage::Started) ==> (
        shown matches ProgressView::Begin { label, status } && label@ == "0%"@ && status@
            == "<span size='small' color='#888'>"@ + "Analizando video..."@ + "</span>"@),
        event == ProgressEvent::Message(ProgressMessage::Completed(true)) <==> shown is Succeeded,
        event == ProgressEvent::Message(ProgressMessage::Completed(false)) <==> shown is Failed,
        event is Closed <==> shown is Lost,
        event is Nothing <==> shown is Unchanged,
{
}

/// As long as a conversion is not over, a look at its progress leaves monitoring and marks as
/// they are; when it is over monitoring goes on from that time, and only success removes the
/// mark, and only that of the result.
pub proof fn law_looking_changes_nothing_before_the_end(
    monitoring: MonitoringView,
    files: Set<Seq<char>>,
    output: Seq<char>,
    file: Seq<char>,
    shown: ProgressView,
    now: u128,
)
    ensures
        is_over(shown) <==> shown is Succeeded || shown is Failed || shown is Lost,
        !is_over(shown) ==> monitoring_after(monitoring, shown, now) == monitoring,
        is_over(shown) ==> monitoring_after(monitoring, shown, now).last_resume == Some(now),
        marked_after(files, shown, output).contains(file) <==> files.contains(file) && !(
        shown is Succeeded && file == output),
{
}

impl ProgressView {
    /// Whether this was the last look.
    pub fn is_last(&self) -> (r: bool)
        ensures
            r == is_over(*self),
    {
        match self {
            ProgressView::Succeeded => true,
            ProgressView::Failed => true,
            ProgressView::Lost => true,
            _ => false,
        }
    }
}

} // verus!
