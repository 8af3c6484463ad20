use async_runtime::runtime::context::Context;

#[test]
fn context_is_empty_before_runtime_enters() {
    let ctx: Context<u32> = Context::new();
    assert_eq!(ctx.get_executor_handle(), None);
    assert!(!ctx.is_entered());
}

#[test]
fn context_hands_out_the_entered_executor() {
    let mut ctx: Context<String> = Context::new();
    ctx.set_executor("first".to_string());
    assert!(ctx.is_entered());
    assert_eq!(ctx.get_executor_handle(), Some(&"first".to_string()));
}
