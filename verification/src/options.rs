//! The options of the command line: the scene file, antialiasing, and the
//! number of threads.
use crate::scene_text::{parse_usize, trim_text, trimmed, usize_of};
use vstd::prelude::*;
use vstd::string::*;

verus! {

/// The most threads that a render may be given.
pub const MAX_THREADS: usize = 255;

/// Samples beside the centre of each pixel when antialiasing is asked for.
pub const ANTIALIAS_SAMPLES: u32 = 8;

/// Why the arguments were not understood.
#[derive(Debug, Clone, Copy, PartialEq, Eq, Structural)]
pub enum OptionsError {
    /// What follows `-t` is missing or is no number.
    ThreadCount,
    /// The thread count is zero or more than `MAX_THREADS`.
    ThreadRange,
    /// An argument that is no option came after the file's name.
    Unexpected,
    /// No argument names the scene file.
    NoFile,
}

/// What the arguments ask for.
#[derive(Debug, Clone, Copy, PartialEq, Eq, Structural)]
pub struct Options {
    /// Which of the arguments names the scene file.
    pub file: usize,
    /// Samples beside the centre of each pixel.
    pub sample_amt: u32,
    /// Threads that share the render.
    pub thread_count: usize,
}

/// What has been understood of the arguments so far.
pub struct Seen {
    pub file: Option<usize>,
    pub sample_amt: Option<u32>,
    pub thread_count: Option<usize>,
}

/// The text `-a`.
pub open spec fn antialias_flag() -> Seq<char> {
    seq!['-', 'a']
}

/// The text `-t`.
pub open spec fn threads_flag() -> Seq<char> {
    seq!['-', 't']
}

/// The thread count that the argument behind `-t` gives.
pub open spec fn thread_count_of(number: Option<usize>) -> Result<usize, OptionsError> {
    match number {
        None => Err(OptionsError::ThreadCount),
        Some(count) => if count == 0 || count > MAX_THREADS {
            Err(OptionsError::ThreadRange)
        } else {
            Ok(count)
        },
    }
}

/// Reads the arguments from position `i` on, one after another. The first
/// `-a` asks for antialiasing. The first `-t` takes the next argument as the
/// number of threads. The first argument that is neither names the scene
/// file, and so does a second `-a` or `-t` where no file was named before.
/// Any further argument is an error.
pub open spec fn seen_from(args: Seq<Seq<char>>, i: int, seen: Seen) -> Result<Seen, OptionsError>
    decreases args.len() - i,
{
    if i < 0 || i >= args.len() {
        Ok(seen)
    } else if args[i] == antialias_flag() && seen.sample_amt is None {
        seen_from(args, i + 1, Seen { sample_amt: Some(ANTIALIAS_SAMPLES), ..seen })
    } else if args[i] == threads_flag() && seen.thread_count is None {
        if i + 1 >= args.len() {
            Err(OptionsError::ThreadCount)
        } else {
            match thread_count_of(usize_of(trimmed(args[i + 1]))) {
                Err(error) => Err(error),
                Ok(count) => seen_from(args, i + 2, Seen { thread_count: Some(count), ..seen }),
            }
        }
    } else if seen.file is None {
        seen_from(args, i + 1, Seen { file: Some(i as usize), ..seen })
    } else {
        Err(OptionsError::Unexpected)
    }
}

/// What the arguments ask for: the file must be named, no antialiasing
/// means no extra samples, and no thread count means one thread.
pub open spec fn options_of(args: Seq<Seq<char>>) -> Result<Options, OptionsError> {
    match seen_from(args, 0, Seen { file: None, sample_amt: None, thread_count: None }) {
        Err(error) => Err(error),
        Ok(seen) => match seen.file {
            None => Err(OptionsError::NoFile),
            Some(file) => Ok(
                Options {
                    file,
                    sample_amt: match seen.sample_amt {
                        Some(sample_amt) => sample_amt,
                        None => 0,
                    },
                    thread_count: match seen.thread_count {
                        Some(thread_count) => thread_count,
                        None => 1,
                    },
                },
            ),
        },
    }
}

/// The texts of the arguments.
pub open spec fn texts(args: Seq<String>) -> Seq<Seq<char>> {
    args.map_values(|arg: String| arg@)
}

/// Whether `text` is the two characters `first` and `second`.
fn is_flag(text: &str, first: char, second: char) -> (same: bool)
    ensures
        same == (text@ == seq![first, second]),
{
    if text.unicode_len() != 2 {
        return false;
    }
    let same = text.get_char(0) == first && text.get_char(1) == second;
    proof {
        if same {
            assert(text@ =~= seq![first, second]);
        } else {
            assert(seq![first, second][0] == first);
            assert(seq![first, second][1] == second);
        }
    }
    same
}

/// Checks the number behind `-t`: it must be a number, from one to
/// `MAX_THREADS`.
pub fn thread_count(number: Option<usize>) -> (count: Result<usize, OptionsError>)
    ensures
        count == thread_count_of(number),
{
    match number {
        None => Err(OptionsError::ThreadCount),
        Some(count) => {
            if count == 0 || count > MAX_THREADS {
                Err(OptionsError::ThreadRange)
            } else {
                Ok(count)
            }
        },
    }
}

/// Reads the options from the arguments behind the program's name.
pub fn parse_command_line_options(args: &[String]) -> (options: Result<Options, OptionsError>)
    ensures
        options == options_of(texts(args@)),
        options is Ok ==> options.unwrap().file < args@.len(),
{
    let ghost all = texts(args@);
    let ghost start = Seen { file: None, sample_amt: None, thread_count: None };
    let mut file: Option<usize> = None;
    let mut sample_amt: Option<u32> = None;
    let mut threads: Option<usize> = None;
    let mut i: usize = 0;
    while i < args.len()
        invariant
            i <= args@.len(),
            all == texts(args@),
            all.len() == args@.len(),
            start == (Seen { file: None, sample_amt: None, thread_count: None }),
            file is Some ==> file.unwrap() < args@.len(),
            seen_from(all, 0, start) == seen_from(
                all,
                i as int,
                Seen { file, sample_amt, thread_count: threads },
            ),
        decreases args@.len() - i,
    {
        let arg = args[i].as_str();
        assert(all[i as int] == arg@);
        if is_flag(arg, '-', 'a') && sample_amt.is_none() {
            sample_amt = Some(ANTIALIAS_SAMPLES);
            i += 1;
        } else if is_flag(arg, '-', 't') && threads.is_none() {
            if i + 1 >= args.len() {
                return Err(OptionsError::ThreadCount);
            }
            let number = args[i + 1].as_str();
            assert(all[i + 1] == number@);
            match thread_count(parse_usize(trim_text(number))) {
                Err(error) => {
                    return Err(error);
                },
                Ok(count) => {
                    threads = Some(count);
                },
            }
            i += 2;
        } else if file.is_none() {
            file = Some(i);
            i += 1;
        } else {
            return Err(OptionsError::Unexpected);
        }
    }
    match file {
        None => Err(OptionsError::NoFile),
        Some(file) => Ok(
            Options {
                file,
                sample_amt: match sample_amt {
                    Some(sample_amt) => sample_amt,
                    None => 0,
                },
                thread_count: match threads {
                    Some(thread_count) => thread_count,
                    None => 1,
                },
            },
        ),
    }
}

} // verus!
