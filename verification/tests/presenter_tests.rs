//! Presentation: transition resolution, easing, and the per-frame plans.

use shift::keys::{MonitorId, SessionId, TextureId};
use shift::monitor_render::{MonitorRenderState, SurfaceId};
use shift::presenter::{
    DrawPlan, FramePresenter, MonitorRenderSnapshot, RenderSnapshot, RenderTransition,
    SlideDirection, TransitionKind, ease_in_out_cubic, resolve_transition, slide_transforms,
};

fn snapshot(
    progress: Option<u32>,
    prev: Option<TextureId>,
    active: Option<TextureId>,
) -> RenderSnapshot {
    RenderSnapshot {
        monitors: vec![MonitorRenderSnapshot {
            monitor_id: MonitorId(1),
            active_texture: active,
            previous_texture: prev,
        }],
        transition: progress.map(|p| RenderTransition {
            animation: "crossfade".to_string(),
            progress: p,
            previous_session_id: Some(SessionId(7)),
        }),
        active_session_id: Some(SessionId(8)),
    }
}

#[test]
fn transition_runs_then_clears_at_full_progress() {
    let mut presenter = FramePresenter::new();
    let connected = vec![MonitorId(1)];
    let a = TextureId(70);
    let b = TextureId(80);
    // first two frames blend both textures and report both sessions
    for progress in [0u32, 500000] {
        let (plans, presented) =
            presenter.render(&snapshot(Some(progress), Some(a), Some(b)), &connected);
        assert_eq!(plans.len(), 1);
        assert!(matches!(
            plans[0].1,
            DrawPlan::Blend {
                kind: TransitionKind::CrossFade,
                previous: TextureId(70),
                active: TextureId(80),
                ..
            }
        ));
        assert_eq!(
            presented,
            vec![(MonitorId(1), SessionId(7)), (MonitorId(1), SessionId(8))]
        );
        assert!(presenter.active_transition().is_some());
    }
    // at full progress the transition is discarded and only the incoming
    // session draws
    let (plans, presented) =
        presenter.render(&snapshot(Some(1000000), Some(a), Some(b)), &connected);
    assert!(presenter.active_transition().is_none());
    assert_eq!(plans.len(), 1);
    assert!(matches!(plans[0].1, DrawPlan::Single { texture: TextureId(80) }));
    assert_eq!(presented, vec![(MonitorId(1), SessionId(8))]);
}

#[test]
fn monitor_without_textures_clears() {
    let mut presenter = FramePresenter::new();
    let (plans, presented) = presenter.render(&snapshot(None, None, None), &vec![MonitorId(1)]);
    assert_eq!(plans.len(), 1);
    assert!(matches!(plans[0].1, DrawPlan::Clear));
    assert!(presented.is_empty());
}

#[test]
fn previous_texture_draws_the_transition_tail() {
    let mut presenter = FramePresenter::new();
    // no transition, no active texture, but the outgoing session's texture
    // is still there
    let shot = RenderSnapshot {
        monitors: vec![MonitorRenderSnapshot {
            monitor_id: MonitorId(1),
            active_texture: None,
            previous_texture: Some(TextureId(70)),
        }],
        transition: Some(RenderTransition {
            animation: "crossfade".to_string(),
            progress: 0,
            previous_session_id: Some(SessionId(7)),
        }),
        active_session_id: None,
    };
    let (plans, presented) = presenter.render(&shot, &vec![MonitorId(1)]);
    assert!(matches!(plans[0].1, DrawPlan::Single { texture: TextureId(70) }));
    assert_eq!(presented, vec![(MonitorId(1), SessionId(7))]);
}

#[test]
fn transition_names_resolve_case_insensitively() {
    assert_eq!(resolve_transition("slideleft"), TransitionKind::SlideLeft);
    assert_eq!(resolve_transition("SlideRight"), TransitionKind::SlideRight);
    assert_eq!(resolve_transition("SLIDEUP"), TransitionKind::SlideUp);
    assert_eq!(resolve_transition("slideDown"), TransitionKind::SlideDown);
    assert_eq!(resolve_transition("Blur"), TransitionKind::Blur);
    assert_eq!(resolve_transition("crossfade"), TransitionKind::CrossFade);
    assert_eq!(resolve_transition("warp"), TransitionKind::CrossFade);
    assert_eq!(resolve_transition(""), TransitionKind::CrossFade);
}

#[test]
fn easing_hits_exact_values() {
    assert_eq!(ease_in_out_cubic(0), 0);
    assert_eq!(ease_in_out_cubic(250000), 62500);
    assert_eq!(ease_in_out_cubic(500000), 500000);
    assert_eq!(ease_in_out_cubic(750000), 937500);
    assert_eq!(ease_in_out_cubic(1000000), 1000000);
}

#[test]
fn slide_transforms_move_a_full_screen() {
    let (primary, secondary) = slide_transforms(SlideDirection::Left, 250000);
    assert_eq!(primary.translate_x, -500000);
    assert_eq!(primary.translate_y, 0);
    assert_eq!(secondary.translate_x, 1500000);
    let (primary, secondary) = slide_transforms(SlideDirection::Down, 1000000);
    assert_eq!(primary.translate_y, -2000000);
    assert_eq!(secondary.translate_y, 0);
}

#[test]
fn surface_cache_resets_on_resize() {
    let mut state = MonitorRenderState::new(800, 600, 0, MonitorId(1));
    assert!(state.ensure_surface_target(800, 600, 0, SurfaceId(1)));
    assert!(state.ensure_surface_target(800, 600, 7, SurfaceId(2)));
    assert!(!state.ensure_surface_target(800, 600, 0, SurfaceId(3)));
    assert_eq!(state.surface_count(), 2);
    assert_eq!(state.surface_for(0), Some(SurfaceId(1)));
    // the resize evicts everything; only the freshly created surface remains
    assert!(state.ensure_surface_target(1024, 768, 7, SurfaceId(9)));
    assert_eq!(state.surface_count(), 1);
    assert_eq!(state.surface_for(0), None);
    assert_eq!(state.surface_for(7), Some(SurfaceId(9)));
    assert_eq!(state.canvas(), Some(SurfaceId(9)));
    assert_eq!(state.width(), 1024);
}
