use vstd::prelude::*;

verus! {

/// What the application loop is told by the window, reduced to what its
/// decisions read.
#[derive(Debug, Copy, Clone, PartialEq, Eq, Structural)]
pub enum WindowInput {
    /// The user asked to close the window.
    CloseRequested,
    /// A key changed state: whether it went down, whether it is an automatic
    /// repetition, and whether its logical key is Escape.
    KeyboardInput { pressed: bool, repeat: bool, escape: bool },
    /// The window's drawable area changed to the given size in pixels.
    Resized { width: u32, height: u32 },
    /// The window asks to be drawn again.
    RedrawRequested,
    /// Any other window event.
    Other,
}

/// What the application loop does in answer to a window event.
#[derive(Debug, Copy, Clone, PartialEq, Eq, Structural)]
pub enum WindowAction {
    /// Leave the event loop.
    Exit,
    /// Resize the drawing surface to the given size, both sides non-zero.
    Resize { width: u32, height: u32 },
    /// Draw a frame and ask for the next one.
    Redraw,
    /// Do nothing.
    Ignore,
}

/// The answer to each window event: a close request, or a fresh press of
/// Escape, ends the loop; a resize to a non-empty size resizes the surface;
/// a redraw request draws; everything else is ignored.
pub open spec fn spec_window_action(input: WindowInput) -> WindowAction {
    match input {
        WindowInput::CloseRequested => WindowAction::Exit,
        WindowInput::KeyboardInput { pressed, repeat, escape } => {
            if pressed && !repeat && escape {
                WindowAction::Exit
            } else {
                WindowAction::Ignore
            }
        },
        WindowInput::Resized { width, height } => {
            if width != 0 && height != 0 {
                WindowAction::Resize { width, height }
            } else {
                WindowAction::Ignore
            }
        },
        WindowInput::RedrawRequested => WindowAction::Redraw,
        WindowInput::Other => WindowAction::Ignore,
    }
}

/// Whether the event asks to leave: a close request, or a fresh (not repeated)
/// press of Escape.
pub open spec fn is_exit_request(input: WindowInput) -> bool {
    match input {
        WindowInput::CloseRequested => true,
        WindowInput::KeyboardInput { pressed, repeat, escape } => pressed && !repeat && escape,
        _ => false,
    }
}

/// Decides what the application loop does with a window event.
pub fn window_event(input: WindowInput) -> (action: WindowAction)
    ensures
        action == spec_window_action(input),
        action matches WindowAction::Resize { width, height } ==> width != 0 && height != 0,
        action is Exit <==> is_exit_request(input),
        input matches WindowInput::Resized { width, height } ==> (width != 0 && height != 0 ==> action
            == WindowAction::Resize { width, height }),
        input matches WindowInput::Resized { width, height } ==> (width == 0 || height == 0 ==> action
            == WindowAction::Ignore),
{
    match input {
        WindowInput::CloseRequested => WindowAction::Exit,
        WindowInput::KeyboardInput { pressed, repeat, escape } => {
            if pressed && !repeat && escape {
                WindowAction::Exit
            } else {
                WindowAction::Ignore
            }
        },
        WindowInput::Resized { width, height } => {
            if width != 0 && height != 0 {
                WindowAction::Resize { width, height }
            } else {
                WindowAction::Ignore
            }
        },
        WindowInput::RedrawRequested => WindowAction::Redraw,
        WindowInput::Other => WindowAction::Ignore,
    }
}

/// The answer to every window event, input by input: closing exits; a key
/// event exits exactly when it is a fresh (not repeated) press of Escape and is
/// otherwise ignored; a resize to a size with both sides non-zero resizes the
/// surface to exactly that size, whatever its shape, and a resize with a zero
/// side is ignored; a redraw request draws; any other event is ignored.
pub proof fn law_window_action(pressed: bool, repeat: bool, escape: bool, width: u32, height: u32)
    ensures
        spec_window_action(WindowInput::CloseRequested) == WindowAction::Exit,
        spec_window_action(WindowInput::KeyboardInput { pressed, repeat, escape }) == (if pressed
            && !repeat && escape {
            WindowAction::Exit
        } else {
            WindowAction::Ignore
        }),
        width != 0 && height != 0 ==> spec_window_action(WindowInput::Resized { width, height })
            == (WindowAction::Resize { width, height }),
        width == 0 || height == 0 ==> spec_window_action(WindowInput::Resized { width, height })
            == WindowAction::Ignore,
        spec_window_action(WindowInput::RedrawRequested) == WindowAction::Redraw,
        spec_window_action(WindowInput::Other) == WindowAction::Ignore,
{
}

/// What the choice of a GL configuration reads of each candidate: whether it
/// supports transparency (`None` when that is unknown) and its number of
/// samples per pixel.
#[derive(Debug, Copy, Clone, PartialEq, Eq, Structural)]
pub struct ConfigTraits {
    pub supports_transparency: Option<bool>,
    pub num_samples: u8,
}

/// A candidate counts as transparent only when it is known to be.
pub open spec fn is_transparent(c: ConfigTraits) -> bool {
    c.supports_transparency == Some(true)
}

/// Whether `config` displaces the best candidate so far, `best`: it does when
/// it adds transparency, or when it has more samples.
pub open spec fn displaces(config: ConfigTraits, best: ConfigTraits) -> bool {
    (is_transparent(config) && !is_transparent(best)) || config.num_samples > best.num_samples
}

/// The index of the candidate that a left-to-right pass keeps, starting from
/// the first one and taking each candidate that displaces the one kept.
pub open spec fn picked_index(configs: Seq<ConfigTraits>) -> int
    decreases configs.len(),
{
    if configs.len() <= 1 {
        0
    } else {
        let best = picked_index(configs.drop_last());
        if displaces(configs.last(), configs[best]) {
            configs.len() - 1
        } else {
            best
        }
    }
}

/// The picked index is an index of the candidates.
pub proof fn lemma_picked_index_in_range(configs: Seq<ConfigTraits>)
    requires
        configs.len() > 0,
    ensures
        0 <= picked_index(configs) < configs.len(),
    decreases configs.len(),
{
    if configs.len() > 1 {
        lemma_picked_index_in_range(configs.drop_last());
    }
}

/// When every candidate supports transparency alike, the pick has the most
/// samples of all candidates.
pub proof fn lemma_pick_has_most_samples(configs: Seq<ConfigTraits>)
    requires
        configs.len() > 0,
        forall|i: int, j: int|
            0 <= i < configs.len() && 0 <= j < configs.len() ==> is_transparent(#[trigger] configs[i])
                == is_transparent(#[trigger] configs[j]),
    ensures
        forall|i: int|
            0 <= i < configs.len() ==> (#[trigger] configs[i]).num_samples
                <= configs[picked_index(configs)].num_samples,
    decreases configs.len(),
{
    lemma_picked_index_in_range(configs);
    if configs.len() > 1 {
        let rest = configs.drop_last();
        lemma_picked_index_in_range(rest);
        lemma_pick_has_most_samples(rest);
        let best = picked_index(rest);
        assert(rest[best] == configs[best]);
        assert forall|i: int| 0 <= i < configs.len() implies (#[trigger] configs[i]).num_samples
            <= configs[picked_index(configs)].num_samples by {
            if i < configs.len() - 1 {
                assert(rest[i] == configs[i]);
            }
        }
    }
}

/// A single candidate is picked.
pub proof fn law_pick_single(config: ConfigTraits)
    ensures
        picked_index(seq![config]) == 0,
{
}

/// Each step of the choice weighs the new candidate against the one kept so
/// far, and only against it: appending `config` to the candidates `configs`
/// picks the new last index exactly when `config` is known to support
/// transparency while the kept one is not, or `config` has strictly more
/// samples than the kept one; otherwise the kept candidate stays picked
/// (so ties keep the earlier one, and losing transparency never displaces).
pub proof fn law_pick_step(configs: Seq<ConfigTraits>, config: ConfigTraits)
    requires
        configs.len() > 0,
    ensures
        ({
            let kept = configs[picked_index(configs)];
            let wins = (config.supports_transparency == Some(true) && kept.supports_transparency
                != Some(true)) || config.num_samples > kept.num_samples;
            &&& wins ==> picked_index(configs.push(config)) == configs.len()
            &&& !wins ==> picked_index(configs.push(config)) == picked_index(configs)
        }),
{
    lemma_picked_index_in_range(configs);
    let all = configs.push(config);
    assert(all.drop_last() =~= configs);
    assert(all[picked_index(configs)] == configs[picked_index(configs)]);
}

/// Picks the GL configuration to use among the candidates, which must not be
/// empty: the index of `picked_index`.
pub fn gl_config_picker(configs: &Vec<ConfigTraits>) -> (index: usize)
    requires
        configs.len() > 0,
    ensures
        index == picked_index(configs@),
        index < configs.len(),
{
    let mut best: usize = 0;
    let mut i: usize = 1;
    while i < configs.len()
        invariant
            1 <= i <= configs.len(),
            best < i,
            best == picked_index(configs@.take(i as int)),
        decreases configs.len() - i,
    {
        let config = configs[i];
        let kept = configs[best];
        let config_transparent = match config.supports_transparency {
            Some(t) => t,
            None => false,
        };
        let kept_transparent = match kept.supports_transparency {
            Some(t) => t,
            None => false,
        };
        proof {
            let prefix = configs@.take(i + 1);
            assert(prefix.drop_last() =~= configs@.take(i as int));
            assert(prefix[best as int] == configs@[best as int]);
            assert(prefix.last() == configs@[i as int]);
        }
        if (config_transparent && !kept_transparent) || config.num_samples > kept.num_samples {
            best = i;
        }
        i = i + 1;
    }
    assert(configs@.take(configs.len() as int) =~= configs@);
    best
}

} // verus!
