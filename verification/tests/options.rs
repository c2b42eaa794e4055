use raytracer::options::{
    parse_command_line_options, thread_count, Options, OptionsError, ANTIALIAS_SAMPLES,
    MAX_THREADS,
};

fn args(words: &[&str]) -> Vec<String> {
    words.iter().map(|word| word.to_string()).collect()
}

#[test]
fn the_limits_of_the_options() {
    assert_eq!(MAX_THREADS, 255);
    assert_eq!(ANTIALIAS_SAMPLES, 8);
}

#[test]
fn a_file_alone_means_one_thread_and_no_extra_samples() {
    assert_eq!(
        parse_command_line_options(&args(&["scene.txt"])),
        Ok(Options { file: 0, sample_amt: 0, thread_count: 1 })
    );
}

#[test]
fn options_may_stand_before_and_behind_the_file() {
    assert_eq!(
        parse_command_line_options(&args(&["-a", "scene.txt", "-t", "4"])),
        Ok(Options { file: 1, sample_amt: 8, thread_count: 4 })
    );
    assert_eq!(
        parse_command_line_options(&args(&["-t", "255", "-a", "scene.txt"])),
        Ok(Options { file: 3, sample_amt: 8, thread_count: 255 })
    );
}

#[test]
fn the_thread_count_may_have_white_space_about_it() {
    assert_eq!(
        parse_command_line_options(&args(&["scene.txt", "-t", " 12 "])),
        Ok(Options { file: 0, sample_amt: 0, thread_count: 12 })
    );
}

#[test]
fn a_thread_count_must_follow_the_flag() {
    assert_eq!(
        parse_command_line_options(&args(&["scene.txt", "-t"])),
        Err(OptionsError::ThreadCount)
    );
    assert_eq!(
        parse_command_line_options(&args(&["scene.txt", "-t", "many"])),
        Err(OptionsError::ThreadCount)
    );
    assert_eq!(
        parse_command_line_options(&args(&["-t", "-a", "scene.txt"])),
        Err(OptionsError::ThreadCount)
    );
}

#[test]
fn a_thread_count_must_be_in_range() {
    assert_eq!(
        parse_command_line_options(&args(&["scene.txt", "-t", "0"])),
        Err(OptionsError::ThreadRange)
    );
    assert_eq!(
        parse_command_line_options(&args(&["scene.txt", "-t", "256"])),
        Err(OptionsError::ThreadRange)
    );
    assert_eq!(
        parse_command_line_options(&args(&["scene.txt", "-t", "1"])),
        Ok(Options { file: 0, sample_amt: 0, thread_count: 1 })
    );
}

#[test]
fn a_second_file_is_refused() {
    assert_eq!(
        parse_command_line_options(&args(&["scene.txt", "other.txt"])),
        Err(OptionsError::Unexpected)
    );
    assert_eq!(
        parse_command_line_options(&args(&["scene.txt", "-a", "-a"])),
        Err(OptionsError::Unexpected)
    );
}

#[test]
fn a_repeated_flag_before_any_file_names_the_file() {
    assert_eq!(
        parse_command_line_options(&args(&["-a", "-a"])),
        Ok(Options { file: 1, sample_amt: 8, thread_count: 1 })
    );
    assert_eq!(
        parse_command_line_options(&args(&["-t", "2", "-t"])),
        Ok(Options { file: 2, sample_amt: 0, thread_count: 2 })
    );
}

#[test]
fn a_file_must_be_named() {
    assert_eq!(parse_command_line_options(&args(&[])), Err(OptionsError::NoFile));
    assert_eq!(parse_command_line_options(&args(&["-a"])), Err(OptionsError::NoFile));
    assert_eq!(
        parse_command_line_options(&args(&["-a", "-t", "3"])),
        Err(OptionsError::NoFile)
    );
}

#[test]
fn the_first_error_is_told() {
    assert_eq!(
        parse_command_line_options(&args(&["a", "b", "-t", "0"])),
        Err(OptionsError::Unexpected)
    );
    assert_eq!(
        parse_command_line_options(&args(&["-t", "0", "a", "b"])),
        Err(OptionsError::ThreadRange)
    );
}

#[test]
fn thread_count_checks_the_number() {
    assert_eq!(thread_count(None), Err(OptionsError::ThreadCount));
    assert_eq!(thread_count(Some(0)), Err(OptionsError::ThreadRange));
    assert_eq!(thread_count(Some(1)), Ok(1));
    assert_eq!(thread_count(Some(255)), Ok(255));
    assert_eq!(thread_count(Some(256)), Err(OptionsError::ThreadRange));
}
