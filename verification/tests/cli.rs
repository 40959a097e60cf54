use raytracer::cli::get_output_file_name;

fn args(words: &[&str]) -> Vec<String> {
    words.iter().map(|word| word.to_string()).collect()
}

#[test]
fn cli_no_argument_means_standard_output() {
    let result = get_output_file_name(&args(&["raytracer"]));
    assert!(matches!(result, Ok(None)));
}

#[test]
fn cli_one_argument_names_the_file() {
    let result = get_output_file_name(&args(&["raytracer", "out.ppm"]));
    assert_eq!(result.unwrap(), Some("out.ppm".to_string()));
}

#[test]
fn cli_second_word_is_the_file_not_the_first() {
    let result = get_output_file_name(&args(&["a", "b"]));
    assert_eq!(result.unwrap(), Some("b".to_string()));
}

#[test]
fn cli_two_arguments_are_too_many() {
    let result = get_output_file_name(&args(&["raytracer", "a.ppm", "b.ppm"]));
    assert_eq!(result.unwrap_err().message, "Too many arguments");
}

#[test]
fn cli_many_arguments_are_too_many() {
    let result = get_output_file_name(&args(&["raytracer", "a", "b", "c", "d"]));
    assert_eq!(result.unwrap_err().message, "Too many arguments");
}

#[test]
fn cli_without_a_program_name() {
    let result = get_output_file_name(&args(&[]));
    assert_eq!(result.unwrap_err().message, "Too many arguments");
}

#[test]
fn cli_empty_file_name_is_kept() {
    let result = get_output_file_name(&args(&["raytracer", ""]));
    assert_eq!(result.unwrap(), Some(String::new()));
}
