use llvm_viz::error::GraphVizError;

#[test]
fn messages_begin_with_the_kind() {
    assert_eq!(
        GraphVizError::LLVMInit("no context".to_owned()).message(),
        "LLVM initialization error: no context"
    );
    assert_eq!(
        GraphVizError::ModuleParsing("a.ll".to_owned()).message(),
        "Failed to parse LLVM module: a.ll"
    );
    assert_eq!(
        GraphVizError::GraphConstruction("full".to_owned()).message(),
        "Graph construction error: full"
    );
    assert_eq!(
        GraphVizError::Visualization("no window".to_owned()).message(),
        "Visualization error: no window"
    );
    assert_eq!(GraphVizError::IO("denied".to_owned()).message(), "IO error: denied");
    assert_eq!(GraphVizError::Decode("eof".to_owned()).message(), "Decode error: eof");
}

#[test]
fn a_message_may_be_empty() {
    assert_eq!(GraphVizError::IO(String::new()).message(), "IO error: ");
}
