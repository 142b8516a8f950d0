use vstd::prelude::*;

verus! {

/// The interactive prompt: a template string together with the formatter
/// that renders it before each line is read.
pub struct Prompt<F: Fn(String) -> String> {
    pub template: String,
    pub formatter: F,
}

impl<F: Fn(String) -> String> Prompt<F> {
    /// The formatter accepts every template.
    pub open spec fn wf(&self) -> bool {
        forall|t: String| call_requires(self.formatter, (t,))
    }

    pub fn new(template: String, formatter: F) -> (r: Self)
        ensures
            r.template == template,
            r.formatter == formatter,
    {
        Prompt { template, formatter }
    }

    /// Render the prompt: the formatter applied to the current template.
    pub fn display(&self) -> (r: String)
        requires
            self.wf(),
        ensures
            call_ensures(self.formatter, (self.template,), r),
    {
        (self.formatter)(self.template.clone())
    }
}

/// The plain formatter: the template is shown as it is.
pub fn basic_prompt(template: String) -> (r: String)
    ensures
        r == template,
{
    template
}

} // verus!
