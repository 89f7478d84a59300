//! How a local renderer is started.
use crate::omp_pane::record::OmpRoute;
use crate::text;
use vstd::prelude::*;

verus! {

/// The variable that tells a guest which launch it belongs to.
pub fn launch_id_variable() -> (name: &'static str)
    ensures
        name@ == "HERDR_OMP_RENDERER_LAUNCH_ID"@,
{
    "HERDR_OMP_RENDERER_LAUNCH_ID"
}

/// The command line of a renderer's guest.
pub open spec fn renderer_arguments(
    executable: Seq<char>,
    route: crate::omp_pane::record::RouteView,
    target_app_client_id: u64,
) -> Seq<Seq<char>> {
    seq![
        executable,
        "__omp-pane"@,
        route.pane_id,
        route.omp_session_id,
        text::decimal(route.route_generation as nat),
        "--app-client-id"@,
        text::decimal(target_app_client_id as nat),
    ]
}

/// The command line of a renderer's guest.
pub fn renderer_args(executable: &str, route: &OmpRoute, target_app_client_id: u64) -> (args: Vec<
    String,
>)
    ensures
        crate::json::texts(args@) == renderer_arguments(executable@, route@, target_app_client_id),
{
    let mut args: Vec<String> = Vec::new();
    args.push(executable.to_owned());
    args.push("__omp-pane".to_owned());
    args.push(route.pane_id.clone());
    args.push(route.omp_session_id.clone());
    args.push(text::decimal_text(route.route_generation as u128));
    args.push("--app-client-id".to_owned());
    args.push(text::decimal_text(target_app_client_id as u128));
    assert(crate::json::texts(args@) =~= renderer_arguments(
        executable@,
        route@,
        target_app_client_id,
    ));
    args
}

/// The value of the launch variable.
pub fn launch_id_value(launch_id: u64) -> (value: String)
    ensures
        value@ == text::decimal(launch_id as nat),
{
    text::decimal_text(launch_id as u128)
}

/// A side of a terminal: there is at least one row and one column.
pub fn terminal_side(cells: u16) -> (side: u16)
    ensures
        side == (if cells == 0 {
            1
        } else {
            cells
        }),
{
    if cells == 0 {
        1
    } else {
        cells
    }
}

/// A guest is started for its pane, its session and its route, and told whose client it is.
pub proof fn law_guest_is_told_its_route(
    executable: Seq<char>,
    route: crate::omp_pane::record::RouteView,
    target_app_client_id: u64,
)
    ensures
        ({
            let args = renderer_arguments(executable, route, target_app_client_id);
            &&& args.len() == 7
            &&& args[0] == executable
            &&& args[1] == "__omp-pane"@
            &&& args[2] == route.pane_id
            &&& args[3] == route.omp_session_id
            &&& args[4] == text::decimal(route.route_generation as nat)
            &&& args[5] == "--app-client-id"@
            &&& args[6] == text::decimal(target_app_client_id as nat)
        }),
{
}

} // verus!
