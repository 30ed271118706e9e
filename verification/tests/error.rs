use common_sense_coder::error::{
    format_error_chain, internal, internal_error, internal_with_context, not_found, required,
    ErrorKind,
};

#[derive(Debug)]
struct TextError {
    msg: &'static str,
    source: Option<Box<dyn std::error::Error>>,
    display_source: bool,
}

impl TextError {
    fn new(msg: &'static str) -> Self {
        Self {
            msg,
            source: None,
            display_source: false,
        }
    }

    fn with_source<E>(mut self, e: E) -> Self
    where
        E: std::error::Error + 'static,
    {
        assert!(self.source.is_none());
        self.source = Some(Box::new(e));
        self
    }

    fn display_source(mut self) -> Self {
        self.display_source = true;
        self
    }
}

impl std::fmt::Display for TextError {
    fn fmt(&self, f: &mut std::fmt::Formatter<'_>) -> std::fmt::Result {
        f.write_str(self.msg)?;
        if self.display_source {
            if let Some(source) = self.source.as_ref() {
                f.write_str(": ")?;
                f.write_str(&source.to_string())?;
            }
        }
        Ok(())
    }
}

impl std::error::Error for TextError {
    fn source(&self) -> Option<&(dyn std::error::Error + 'static)> {
        self.source.as_deref()
    }
}

/// The messages of an error and of its causes, outermost first.
fn chain_of(e: &dyn std::error::Error) -> Vec<String> {
    let mut chain = Vec::new();
    let mut maybe_e = Some(e);
    while let Some(e) = maybe_e {
        chain.push(e.to_string());
        maybe_e = e.source();
    }
    chain
}

#[test]
fn test_format_error_chain() {
    assert_eq!(format_error_chain(&chain_of(&TextError::new("foo"))), "foo");

    assert_eq!(
        format_error_chain(&chain_of(
            &TextError::new("foo").with_source(TextError::new("bar"))
        )),
        "foo: bar",
    );

    let e = TextError::new("foo")
        .display_source()
        .with_source(TextError::new("bar"));
    assert_eq!(e.to_string(), "foo: bar");
    assert_eq!(format_error_chain(&chain_of(&e)), "foo: bar");

    let e = TextError::new("foo").display_source().with_source(
        TextError::new("bar")
            .display_source()
            .with_source(TextError::new("baz").with_source(TextError::new("end"))),
    );
    assert_eq!(e.to_string(), "foo: bar: baz");
    assert_eq!(format_error_chain(&chain_of(&e)), "foo: bar: baz: end");
}

fn strings(parts: &[&str]) -> Vec<String> {
    parts.iter().map(|s| s.to_string()).collect()
}

#[test]
fn error_chain_edge_cases() {
    assert_eq!(format_error_chain(&vec![]), "");
    assert_eq!(format_error_chain(&strings(&[""])), "");
    assert_eq!(format_error_chain(&strings(&["", "a"])), "a");
    assert_eq!(format_error_chain(&strings(&["a", ""])), "a");
    assert_eq!(format_error_chain(&strings(&["a", "a"])), "a");
    assert_eq!(format_error_chain(&strings(&["a", "b", "a"])), "a: b: a");
    assert_eq!(format_error_chain(&strings(&["xa", "a", "b"])), "xa: b");
    assert_eq!(format_error_chain(&strings(&["a", "ab"])), "a: ab");
}

#[test]
fn internal_errors_carry_the_chain() {
    let e = internal(&strings(&["read file", "permission denied"]));
    assert_eq!(e.kind, ErrorKind::InternalError);
    assert_eq!(e.message, "read file: permission denied");
    let e = internal_with_context("HoverRequest", &strings(&["server gone", "pipe closed"]));
    assert_eq!(e.kind, ErrorKind::InternalError);
    assert_eq!(e.message, "HoverRequest: server gone: pipe closed");
    let e = internal_with_context("HoverRequest", &vec![]);
    assert_eq!(e.message, "HoverRequest");
    let e = internal_error("nested symbols are not yet implemented");
    assert_eq!(e.kind, ErrorKind::InternalError);
    assert_eq!(e.message, "nested symbols are not yet implemented");
}

#[test]
fn missing_values_become_errors() {
    assert_eq!(not_found(Some(1), "x".to_owned()).unwrap(), 1);
    let e = not_found(None::<u8>, "src/lib.rs".to_owned()).unwrap_err();
    assert_eq!(e.kind, ErrorKind::ResourceNotFound);
    assert_eq!(e.message, "src/lib.rs");
    assert_eq!(required(Some("q"), "query".to_owned()).unwrap(), "q");
    let e = required(None::<u8>, "query".to_owned()).unwrap_err();
    assert_eq!(e.kind, ErrorKind::InvalidParams);
    assert_eq!(e.message, "query is required");
}
