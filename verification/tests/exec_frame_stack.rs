use kernel_core::exec::frame_stack::{FrameStack, StdioBinding};

#[test]
fn it_starts_with_the_shells_own_frame() {
    let s = FrameStack::new();
    assert_eq!(s.depth(), 1);
    assert_eq!(s.top().cwd, "/");
    assert_eq!(s.top().stdio, [StdioBinding::Default; 3]);
}

#[test]
fn the_base_frame_cannot_be_popped() {
    let mut s = FrameStack::new();
    assert!(!s.pop());
    assert_eq!(s.depth(), 1);
    s.push_copy();
    assert!(s.pop());
    assert!(!s.pop());
}

#[test]
fn a_scope_isolates_the_working_directory_and_the_streams() {
    let mut s = FrameStack::new();
    s.top_mut().cwd = String::from("/bin");
    s.with_scope(|s| {
        assert_eq!(s.top().cwd, "/bin");
        s.top_mut().cwd = String::from("/fonts");
        s.top_mut().stdio[1] = StdioBinding::File(3);
    });
    assert_eq!(s.top().cwd, "/bin");
    assert_eq!(s.top().stdio, [StdioBinding::Default; 3]);
    assert_eq!(s.depth(), 1);
}

#[test]
fn scopes_nest() {
    let mut s = FrameStack::new();
    s.with_scope(|s| {
        s.top_mut().cwd = String::from("/a");
        s.with_scope(|s| {
            s.top_mut().cwd = String::from("/a/b");
            assert_eq!(s.depth(), 3);
        });
        assert_eq!(s.top().cwd, "/a");
    });
    assert_eq!(s.top().cwd, "/");
}

#[test]
fn with_stdio_restores_only_the_streams() {
    let mut s = FrameStack::new();
    s.with_stdio([None, Some(StdioBinding::File(2)), None], |s| {
        assert_eq!(s.top().stdio, [StdioBinding::Default, StdioBinding::File(2), StdioBinding::Default]);
        s.top_mut().cwd = String::from("/bin");
    });
    assert_eq!(s.top().stdio, [StdioBinding::Default; 3]);
    assert_eq!(s.top().cwd, "/bin");
}

#[test]
fn with_stdio_overrides_nest_and_unwind_in_order() {
    let mut s = FrameStack::new();
    s.with_stdio([None, Some(StdioBinding::File(1)), None], |s| {
        s.with_stdio([None, Some(StdioBinding::File(2)), Some(StdioBinding::File(2))], |s| {
            assert_eq!(s.top().stdio, [StdioBinding::Default, StdioBinding::File(2), StdioBinding::File(2)]);
        });
        assert_eq!(s.top().stdio, [StdioBinding::Default, StdioBinding::File(1), StdioBinding::Default]);
    });
    assert_eq!(s.top().stdio, [StdioBinding::Default; 3]);
}

#[test]
fn a_scope_inside_a_redirect_and_a_redirect_inside_a_scope_both_unwind() {
    let mut s = FrameStack::new();
    s.with_stdio([None, Some(StdioBinding::File(1)), None], |s| {
        s.with_scope(|s| {
            assert_eq!(s.top().stdio[1], StdioBinding::File(1));
            s.with_stdio([None, Some(StdioBinding::File(9)), None], |s| {
                assert_eq!(s.top().stdio[1], StdioBinding::File(9));
            });
            assert_eq!(s.top().stdio[1], StdioBinding::File(1));
            s.top_mut().cwd = String::from("/inner");
        });
        assert_eq!(s.top().cwd, "/");
        assert_eq!(s.top().stdio[1], StdioBinding::File(1));
    });
    assert_eq!(s.top().stdio, [StdioBinding::Default; 3]);
}

#[test]
fn an_early_return_inside_the_closure_unbalances_nothing() {
    fn body(s: &mut FrameStack, fail: bool) -> Result<(), ()> {
        s.with_scope(|s| {
            s.with_stdio([Some(StdioBinding::File(1)), None, None], |s| {
                if fail {
                    return Err(());
                }
                s.top_mut().cwd = String::from("/x");
                Ok(())
            })
        })
    }
    let mut s = FrameStack::new();
    assert_eq!(body(&mut s, true), Err(()));
    assert_eq!(body(&mut s, false), Ok(()));
    assert_eq!((s.depth(), s.top().cwd.as_str(), s.top().stdio), (1, "/", [StdioBinding::Default; 3]));
}

#[test]
fn the_stack_never_loses_the_shells_own_frame() {
    let mut s = FrameStack::new();
    s.push_copy();
    s.push_copy();
    assert_eq!(s.depth(), 3);
    assert!(s.pop());
    assert!(s.pop());
    assert!(!s.pop());
    assert_eq!(s.depth(), 1);
    s.with_scope(|inner| {
        inner.top_mut().cwd = "/bin".to_string();
        assert_eq!(inner.depth(), 2);
    });
    assert_eq!(s.depth(), 1);
    assert_eq!(s.top().cwd, "/");
}
