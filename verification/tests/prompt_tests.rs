use gosh::prompt::basic_prompt;
use gosh::prompt::Prompt;

#[test]
fn basic_prompt_shows_template_verbatim() {
    let prompt = Prompt::new(String::from(" > "), basic_prompt as fn(String) -> String);
    assert_eq!(prompt.display(), " > ");
}

#[test]
fn template_can_be_replaced() {
    let mut prompt = Prompt::new(String::from("old"), basic_prompt as fn(String) -> String);
    prompt.template = String::from("new");
    assert_eq!(prompt.display(), "new");
}

fn shouting(template: String) -> String {
    template.to_uppercase()
}

#[test]
fn formatter_can_be_swapped() {
    let mut prompt = Prompt::new(String::from("go"), basic_prompt as fn(String) -> String);
    prompt.formatter = shouting;
    assert_eq!(prompt.display(), "GO");
}
