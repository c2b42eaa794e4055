//! The lines of a scene description: what each line is about, which settings
//! may stand once only, and what holds where a setting is left out.
use crate::renderdata::RenderData;
use crate::scene_text::{parse_resolution, png_file_name, png_name_of, resolution_of, trim_text, trimmed};
use vstd::prelude::*;
use vstd::string::*;

verus! {

/// What a line of a scene description is about, by its first word.
#[derive(Debug, Clone, Copy, PartialEq, Eq, Structural)]
pub enum LineKind {
    Sphere,
    Cube,
    Tetra,
    Light,
    Res,
    Near,
    Left,
    Right,
    Bottom,
    Top,
    Back,
    Ambient,
    Output,
    /// Any other first word, and a line without words: such a line is
    /// passed over.
    Other,
}

/// Why a scene description was refused.
#[derive(Debug, Clone, Copy, PartialEq, Eq, Structural)]
pub enum SceneError {
    /// A setting that may stand once stands a second time.
    Repeated(LineKind),
    /// The words of the line do not give what the line is about.
    Unreadable(LineKind),
}

/// The settings that the library reads itself, and which of the others have
/// been seen.
pub struct SceneHeader {
    pub resolution: Option<(usize, usize)>,
    pub output_file: Option<String>,
    pub near: bool,
    pub left: bool,
    pub right: bool,
    pub bottom: bool,
    pub top: bool,
    pub back: bool,
    pub ambient: bool,
}

/// A `SceneHeader` with its texts as sequences of characters.
pub struct SceneHeaderView {
    pub resolution: Option<(usize, usize)>,
    pub output_file: Option<Seq<char>>,
    pub near: bool,
    pub left: bool,
    pub right: bool,
    pub bottom: bool,
    pub top: bool,
    pub back: bool,
    pub ambient: bool,
}

impl View for SceneHeader {
    type V = SceneHeaderView;

    open spec fn view(&self) -> SceneHeaderView {
        SceneHeaderView {
            resolution: self.resolution,
            output_file: match self.output_file {
                Some(name) => Some(name@),
                None => None,
            },
            near: self.near,
            left: self.left,
            right: self.right,
            bottom: self.bottom,
            top: self.top,
            back: self.back,
            ambient: self.ambient,
        }
    }
}

/// The kind of the line whose first word is `word`.
pub open spec fn kind_of(word: Seq<char>) -> LineKind {
    if word == "SPHERE"@ {
        LineKind::Sphere
    } else if word == "CUBE"@ {
        LineKind::Cube
    } else if word == "TETRA"@ {
        LineKind::Tetra
    } else if word == "LIGHT"@ {
        LineKind::Light
    } else if word == "RES"@ {
        LineKind::Res
    } else if word == "NEAR"@ {
        LineKind::Near
    } else if word == "LEFT"@ {
        LineKind::Left
    } else if word == "RIGHT"@ {
        LineKind::Right
    } else if word == "BOTTOM"@ {
        LineKind::Bottom
    } else if word == "TOP"@ {
        LineKind::Top
    } else if word == "BACK"@ {
        LineKind::Back
    } else if word == "AMBIENT"@ {
        LineKind::Ambient
    } else if word == "OUTPUT"@ {
        LineKind::Output
    } else {
        LineKind::Other
    }
}

impl LineKind {
    /// For an edge of the view: whether its number must be above zero
    /// (`true`) or below zero (`false`). `None` for every other line.
    pub open spec fn sign_of(self) -> Option<bool> {
        match self {
            LineKind::Near | LineKind::Right | LineKind::Top => Some(true),
            LineKind::Left | LineKind::Bottom => Some(false),
            _ => None,
        }
    }

    /// For an edge of the view: whether its number must be above zero
    /// (`true`) or below zero (`false`). `None` for every other line.
    pub fn positive(self) -> (sign: Option<bool>)
        ensures
            sign == self.sign_of(),
    {
        match self {
            LineKind::Near | LineKind::Right | LineKind::Top => Some(true),
            LineKind::Left | LineKind::Bottom => Some(false),
            _ => None,
        }
    }
}

impl SceneHeaderView {
    /// Whether a line of this kind, which may stand once, has been taken.
    pub open spec fn seen(self, kind: LineKind) -> bool {
        match kind {
            LineKind::Res => self.resolution is Some,
            LineKind::Output => self.output_file is Some,
            LineKind::Near => self.near,
            LineKind::Left => self.left,
            LineKind::Right => self.right,
            LineKind::Bottom => self.bottom,
            LineKind::Top => self.top,
            LineKind::Back => self.back,
            LineKind::Ambient => self.ambient,
            _ => false,
        }
    }

    /// The header after a line of this kind was taken whose value the
    /// caller reads.
    pub open spec fn marked(self, kind: LineKind) -> SceneHeaderView {
        match kind {
            LineKind::Near => SceneHeaderView { near: true, ..self },
            LineKind::Left => SceneHeaderView { left: true, ..self },
            LineKind::Right => SceneHeaderView { right: true, ..self },
            LineKind::Bottom => SceneHeaderView { bottom: true, ..self },
            LineKind::Top => SceneHeaderView { top: true, ..self },
            LineKind::Back => SceneHeaderView { back: true, ..self },
            LineKind::Ambient => SceneHeaderView { ambient: true, ..self },
            _ => self,
        }
    }

    /// The header after the line with the words `words`, and what the line
    /// is about or why it is refused. A line that is refused leaves the
    /// header as it was.
    pub open spec fn after(self, words: Seq<Seq<char>>) -> (
        SceneHeaderView,
        Result<LineKind, SceneError>,
    ) {
        if words.len() == 0 {
            (self, Ok(LineKind::Other))
        } else {
            let kind = kind_of(words[0]);
            if self.seen(kind) {
                (self, Err(SceneError::Repeated(kind)))
            } else if kind == LineKind::Res {
                if words.len() != 3 {
                    (self, Err(SceneError::Unreadable(kind)))
                } else {
                    match resolution_of(trimmed(words[1]), trimmed(words[2])) {
                        None => (self, Err(SceneError::Unreadable(kind))),
                        Some(resolution) => (
                            SceneHeaderView { resolution: Some(resolution), ..self },
                            Ok(kind),
                        ),
                    }
                }
            } else if kind == LineKind::Output {
                if words.len() != 2 {
                    (self, Err(SceneError::Unreadable(kind)))
                } else {
                    (SceneHeaderView { output_file: Some(trimmed(words[1])), ..self }, Ok(kind))
                }
            } else {
                (self.marked(kind), Ok(kind))
            }
        }
    }

    /// The resolution, 800 by 600 where none was given.
    pub open spec fn resolution_or_default(self) -> (usize, usize) {
        match self.resolution {
            Some(resolution) => resolution,
            None => (800, 600),
        }
    }

    /// The name of the PPM file, `output.ppm` where none was given.
    pub open spec fn ppm_or_default(self) -> Seq<char> {
        match self.output_file {
            Some(name) => name,
            None => "output.ppm"@,
        }
    }
}

/// The texts of the words.
pub open spec fn word_texts(words: Seq<&str>) -> Seq<Seq<char>> {
    words.map_values(|word: &str| word@)
}

/// Whether two texts hold the same characters.
pub fn same_text(a: &str, b: &str) -> (same: bool)
    ensures
        same == (a@ == b@),
{
    let n = a.unicode_len();
    if n != b.unicode_len() {
        return false;
    }
    let mut i: usize = 0;
    while i < n
        invariant
            i <= n,
            n == a@.len(),
            n == b@.len(),
            a@.subrange(0, i as int) == b@.subrange(0, i as int),
        decreases n - i,
    {
        if a.get_char(i) != b.get_char(i) {
            return false;
        }
        proof {
            assert(a@.subrange(0, i + 1) =~= a@.subrange(0, i as int).push(a@[i as int]));
            assert(b@.subrange(0, i + 1) =~= b@.subrange(0, i as int).push(b@[i as int]));
        }
        i += 1;
    }
    proof {
        assert(a@.subrange(0, n as int) =~= a@);
        assert(b@.subrange(0, n as int) =~= b@);
    }
    true
}

/// Tells what a line is about by its first word.
pub fn line_kind(word: &str) -> (kind: LineKind)
    ensures
        kind == kind_of(word@),
{
    if same_text(word, "SPHERE") {
        LineKind::Sphere
    } else if same_text(word, "CUBE") {
        LineKind::Cube
    } else if same_text(word, "TETRA") {
        LineKind::Tetra
    } else if same_text(word, "LIGHT") {
        LineKind::Light
    } else if same_text(word, "RES") {
        LineKind::Res
    } else if same_text(word, "NEAR") {
        LineKind::Near
    } else if same_text(word, "LEFT") {
        LineKind::Left
    } else if same_text(word, "RIGHT") {
        LineKind::Right
    } else if same_text(word, "BOTTOM") {
        LineKind::Bottom
    } else if same_text(word, "TOP") {
        LineKind::Top
    } else if same_text(word, "BACK") {
        LineKind::Back
    } else if same_text(word, "AMBIENT") {
        LineKind::Ambient
    } else if same_text(word, "OUTPUT") {
        LineKind::Output
    } else {
        LineKind::Other
    }
}

impl SceneHeader {
    /// The header of a description of which no line was read.
    pub fn new() -> (header: Self)
        ensures
            header@ == (SceneHeaderView {
                resolution: None,
                output_file: None,
                near: false,
                left: false,
                right: false,
                bottom: false,
                top: false,
                back: false,
                ambient: false,
            }),
    {
        SceneHeader {
            resolution: None,
            output_file: None,
            near: false,
            left: false,
            right: false,
            bottom: false,
            top: false,
            back: false,
            ambient: false,
        }
    }

    /// Whether a line of this kind, which may stand once, has been taken.
    pub fn seen(&self, kind: LineKind) -> (seen: bool)
        ensures
            seen == self@.seen(kind),
    {
        match kind {
            LineKind::Res => self.resolution.is_some(),
            LineKind::Output => self.output_file.is_some(),
            LineKind::Near => self.near,
            LineKind::Left => self.left,
            LineKind::Right => self.right,
            LineKind::Bottom => self.bottom,
            LineKind::Top => self.top,
            LineKind::Back => self.back,
            LineKind::Ambient => self.ambient,
            _ => false,
        }
    }

    /// Takes the words of a line. A setting that stands a second time is
    /// refused. The resolution and the name of the output file are read
    /// here. For every other line the caller is told what it is about, to
    /// read the numbers on it, and an edge of the view or a colour is
    /// marked as seen.
    pub fn read_line(&mut self, tokens: &Vec<&str>) -> (kind: Result<LineKind, SceneError>)
        ensures
            (final(self)@, kind) == old(self)@.after(word_texts(tokens@)),
    {
        let ghost words = word_texts(tokens@);
        if tokens.len() == 0 {
            return Ok(LineKind::Other);
        }
        assert(words[0] == tokens@[0]@);
        let kind = line_kind(tokens[0]);
        if self.seen(kind) {
            return Err(SceneError::Repeated(kind));
        }
        match kind {
            LineKind::Res => {
                if tokens.len() != 3 {
                    return Err(SceneError::Unreadable(kind));
                }
                assert(words[1] == tokens@[1]@ && words[2] == tokens@[2]@);
                match parse_resolution(trim_text(tokens[1]), trim_text(tokens[2])) {
                    None => {
                        return Err(SceneError::Unreadable(kind));
                    },
                    Some(resolution) => {
                        self.resolution = Some(resolution);
                    },
                }
            },
            LineKind::Output => {
                if tokens.len() != 2 {
                    return Err(SceneError::Unreadable(kind));
                }
                assert(words[1] == tokens@[1]@);
                self.output_file = Some(String::from_str(trim_text(tokens[1])));
            },
            LineKind::Near => {
                self.near = true;
            },
            LineKind::Left => {
                self.left = true;
            },
            LineKind::Right => {
                self.right = true;
            },
            LineKind::Bottom => {
                self.bottom = true;
            },
            LineKind::Top => {
                self.top = true;
            },
            LineKind::Back => {
                self.back = true;
            },
            LineKind::Ambient => {
                self.ambient = true;
            },
            _ => {},
        }
        Ok(kind)
    }

    /// The raster of the scene, 800 by 600 pixels where no resolution was
    /// given. `None` where a raster of the resolution cannot be held.
    pub fn raster(&self) -> (data: Option<RenderData>)
        ensures
            data is Some <==> RenderData::fits(
                self@.resolution_or_default().0 as int,
                self@.resolution_or_default().1 as int,
            ),
            data is Some ==> data.unwrap().spec_width() == self@.resolution_or_default().0
                && data.unwrap().spec_height() == self@.resolution_or_default().1,
    {
        match self.resolution {
            Some((width, height)) => RenderData::new(width, height),
            None => RenderData::new(800, 600),
        }
    }

    /// The names of the PPM and of the PNG file: the name that was given,
    /// or `output.ppm`, and the PNG's name that goes with it.
    pub fn output_files(&self) -> (names: (String, String))
        ensures
            names.0@ == self@.ppm_or_default(),
            names.1@ == png_name_of(self@.ppm_or_default()),
    {
        let ppm = match &self.output_file {
            Some(name) => name.clone(),
            None => String::from_str("output.ppm"),
        };
        let png = png_file_name(ppm.as_str());
        (ppm, png)
    }
}

} // verus!
