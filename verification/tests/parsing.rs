// The stage that turns source text into syntax trees is an external
// collaborator of this crate, which starts from the trees themselves.

#[test]
fn parse_expression() {}
