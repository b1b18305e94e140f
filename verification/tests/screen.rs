use std::collections::HashMap;
use wsup::app::{App, Effect, ProcessHistory, ViewMode, HISTORY_LEN};
use wsup::keys::{keyCommand, sortModeFromArg, Command, Key};
use wsup::order::SortMode;
use wsup::process::{findProcessByPort, ProcessInfo};
use wsup::projects::{buildResult, deployResult, Project, ProjectManager};

fn proc(pid: u32, name: &str, port: u16, cpu: u32, memory: u64, connections: u32, cmd: &[&str]) -> ProcessInfo {
    ProcessInfo {
        pid,
        name: name.to_string(),
        cmd: cmd.iter().map(|s| s.to_string()).collect(),
        port,
        cpu_key: cpu,
        memory,
        connections,
        protocol: "TCP".to_string(),
    }
}

fn sample() -> Vec<ProcessInfo> {
    vec![
        proc(30, "postgres", 5432, 10, 5000, 3, &["postgres", "-D", "/data"]),
        proc(10, "Node", 3000, 250, 9000, 1, &["node", "server.js"]),
        proc(20, "nginx", 80, 5, 100, 9, &[]),
    ]
}

fn new_app() -> App<()> {
    App::new(ProjectManager::new(vec![]), None)
}

fn pids(v: &[ProcessInfo]) -> Vec<u32> {
    v.iter().map(|p| p.pid).collect()
}

#[test]
fn new_app_starts_on_the_list() {
    let app = new_app();
    assert_eq!(app.view_mode, ViewMode::List);
    assert_eq!(app.sort_mode, SortMode::Port);
    assert!(!app.sort_reversed && !app.search_mode && !app.should_quit);
    assert!(app.processes.is_empty() && app.status_message.is_none());
}

#[test]
fn refresh_sorts_filters_and_records_history() {
    let mut app = new_app();
    app.refreshProcesses(sample());
    assert_eq!(pids(&app.processes), vec![20, 10, 30]);
    assert_eq!(pids(&app.filtered_processes), vec![20, 10, 30]);
    let h = app.getHistory(10).unwrap();
    assert_eq!(h.cpu, vec![250]);
    assert_eq!(h.memory, vec![9000]);
    assert_eq!(h.connections, vec![1]);
    app.refreshProcesses(sample());
    assert_eq!(app.getHistory(10).unwrap().cpu, vec![250, 250]);
    assert!(app.getHistory(99).is_none());
}

#[test]
fn history_keeps_the_last_sixty_samples() {
    let mut h = ProcessHistory::new();
    for i in 0..(HISTORY_LEN as u32 + 5) {
        h.push(i, i as u64 * 2, i + 1);
    }
    assert_eq!(h.cpu.len(), 60);
    assert_eq!(h.memory.len(), 60);
    assert_eq!(h.connections.len(), 60);
    assert_eq!(h.cpu[0], 5);
    assert_eq!(*h.cpu.last().unwrap(), 64);
    assert_eq!(h.memory[0], 10);
    assert_eq!(h.connections[59], 65);
}

#[test]
fn search_filters_by_name_port_and_command() {
    let mut app = new_app();
    app.refreshProcesses(sample());
    app.toggleSearch();
    assert!(app.search_mode);
    app.searchInput('N');
    assert_eq!(pids(&app.filtered_processes), vec![20, 10]);
    app.searchInput('o');
    assert_eq!(pids(&app.filtered_processes), vec![10]);
    app.searchBackspace();
    app.searchBackspace();
    assert_eq!(app.search_query, "");
    assert_eq!(pids(&app.filtered_processes), vec![20, 10, 30]);
    for c in "543".chars() {
        app.searchInput(c);
    }
    assert_eq!(pids(&app.filtered_processes), vec![30]);
    app.searchBackspace();
    app.searchBackspace();
    app.searchBackspace();
    for c in "SERVER.JS".chars() {
        app.searchInput(c);
    }
    assert_eq!(pids(&app.filtered_processes), vec![10]);
    assert_eq!(app.selected, 0);
    app.toggleSearch();
    assert!(!app.search_mode);
    assert_eq!(app.search_query, "");
    assert_eq!(pids(&app.filtered_processes), vec![20, 10, 30]);
}

#[test]
fn backspace_undoes_a_typed_character() {
    let mut app = new_app();
    app.refreshProcesses(sample());
    app.searchInput('n');
    let query = app.search_query.clone();
    let shown = pids(&app.filtered_processes);
    app.searchInput('g');
    assert_eq!(pids(&app.filtered_processes), vec![20]);
    app.selected = 0;
    app.searchBackspace();
    assert_eq!(app.search_query, query);
    assert_eq!(pids(&app.filtered_processes), shown);
}

#[test]
fn stats_count_distinct_ports() {
    let mut app = new_app();
    let mut list = sample();
    list.push(proc(40, "second", 3000, 7, 1, 2, &[]));
    app.refreshProcesses(list);
    let st = app.getStats();
    assert_eq!(st.total_processes, 4);
    assert_eq!(st.unique_ports, 3);
    assert_eq!(st.total_memory, 14101);
    assert_eq!(st.total_connections, 15);
}

#[test]
fn backspace_on_empty_query_keeps_it_empty() {
    let mut app = new_app();
    app.refreshProcesses(sample());
    app.selected = 2;
    app.searchBackspace();
    assert_eq!(app.search_query, "");
    assert_eq!(app.selected, 0);
    assert_eq!(app.filtered_processes.len(), 3);
}

#[test]
fn cycling_sort_flips_direction_after_name() {
    let mut app = new_app();
    let modes = [SortMode::Cpu, SortMode::Memory, SortMode::Connections, SortMode::Name, SortMode::Port];
    for m in modes {
        app.cycleSort(sample());
        assert_eq!(app.sort_mode, m);
    }
    assert!(app.sort_reversed);
    assert_eq!(pids(&app.processes), vec![30, 10, 20]);
    app.cycleSort(sample());
    assert_eq!(app.sort_mode, SortMode::Cpu);
    assert!(app.sort_reversed);
    assert_eq!(pids(&app.processes), vec![20, 30, 10]);
}

#[test]
fn toggling_sort_order_reverses_the_list() {
    let mut app = new_app();
    app.toggleSortOrder(sample());
    assert!(app.sort_reversed);
    assert_eq!(pids(&app.processes), vec![30, 10, 20]);
}

#[test]
fn navigation_wraps_around() {
    let mut app = new_app();
    app.refreshProcesses(sample());
    app.previous();
    assert_eq!(app.selected, 2);
    app.next();
    assert_eq!(app.selected, 0);
    app.next();
    app.next();
    assert_eq!(app.selected, 2);
    app.previous();
    assert_eq!(app.selected, 1);
}

#[test]
fn navigation_on_empty_list_stays() {
    let mut app = new_app();
    app.next();
    app.previous();
    assert_eq!(app.selected, 0);
}

#[test]
fn scrolling_follows_the_selection() {
    let mut app = new_app();
    app.selected = 7;
    app.adjustScroll(5);
    assert_eq!(app.scroll_offset, 3);
    app.selected = 1;
    app.adjustScroll(5);
    assert_eq!(app.scroll_offset, 1);
    app.selected = 4;
    app.adjustScroll(5);
    assert_eq!(app.scroll_offset, 1);
}

#[test]
fn refresh_clamps_selection() {
    let mut app = new_app();
    app.refreshProcesses(sample());
    app.selected = 2;
    app.refreshProcesses(vec![proc(1, "a", 1, 0, 0, 0, &[])]);
    assert_eq!(app.selected, 0);
    app.selected = 5;
    app.refreshProcesses(vec![]);
    assert_eq!(app.selected, 5);
}

#[test]
fn views_and_status() {
    let mut app = new_app();
    app.showDetail();
    assert_eq!(app.view_mode, ViewMode::Detail);
    app.showConfirmKill();
    assert_eq!(app.view_mode, ViewMode::ConfirmKill);
    app.status_message = Some("x".to_string());
    app.backToList();
    assert_eq!(app.view_mode, ViewMode::List);
    assert!(app.status_message.is_none());
    app.showProjects();
    assert_eq!(app.view_mode, ViewMode::Projects);
    app.quit();
    assert!(app.should_quit);
}

#[test]
fn selected_process_comes_from_filtered_list() {
    let mut app = new_app();
    assert!(app.getSelectedProcess().is_none());
    app.refreshProcesses(sample());
    app.selected = 1;
    assert_eq!(app.getSelectedProcess().unwrap().pid, 10);
}

#[test]
fn kill_reports_and_refreshes() {
    let mut app = new_app();
    app.refreshProcesses(sample());
    app.selected = 1;
    app.showConfirmKill();
    assert_eq!(app.killTarget(), Some(10));
    let rest: Vec<ProcessInfo> = sample().into_iter().filter(|p| p.pid != 10).collect();
    app.killSelected(Ok(rest));
    assert_eq!(app.status_message.as_deref(), Some("\u{2713} Killed Node (PID: 10)"));
    assert_eq!(app.view_mode, ViewMode::List);
    assert_eq!(pids(&app.processes), vec![20, 30]);
}

#[test]
fn kill_targets_the_selected_row_of_a_filtered_list() {
    let mut app = new_app();
    app.refreshProcesses(sample());
    for c in "postgres".chars() {
        app.searchInput(c);
    }
    assert_eq!(pids(&app.filtered_processes), vec![30]);
    assert_eq!(app.selected, 0);
    app.showConfirmKill();
    assert_eq!(app.getSelectedProcess().unwrap().pid, 30);
    assert_eq!(app.killTarget(), Some(30));
    let rest: Vec<ProcessInfo> = sample().into_iter().filter(|p| p.pid != 30).collect();
    app.killSelected(Ok(rest));
    assert_eq!(app.status_message.as_deref(), Some("\u{2713} Killed postgres (PID: 30)"));
    assert!(app.filtered_processes.is_empty());
}

#[test]
fn failed_kill_is_reported() {
    let mut app = new_app();
    app.refreshProcesses(sample());
    app.showConfirmKill();
    app.killSelected(Err("denied".to_string()));
    assert_eq!(app.status_message.as_deref(), Some("\u{2717} Error: denied"));
    assert_eq!(app.view_mode, ViewMode::List);
    assert_eq!(app.processes.len(), 3);
}

#[test]
fn kill_without_target_does_nothing() {
    let mut app = new_app();
    assert_eq!(app.killTarget(), None);
    app.killSelected(Err("x".to_string()));
    assert!(app.status_message.is_none());
}

#[test]
fn stats_count_and_add() {
    let mut app = new_app();
    let mut v = sample();
    v.push(proc(10, "Node", 3000, 1, 1, 1, &[]));
    app.refreshProcesses(v);
    assert!(app.statsFit());
    let s = app.getStats();
    assert_eq!(s.total_processes, 4);
    assert_eq!(s.filtered_count, 4);
    assert_eq!(s.unique_ports, 3);
    assert_eq!(s.total_memory, 14101);
    assert_eq!(s.total_connections, 14);
}

#[test]
fn stats_that_overflow_are_detected() {
    let mut app = new_app();
    app.refreshProcesses(vec![proc(1, "a", 1, 0, u64::MAX, 0, &[]), proc(2, "b", 2, 0, 1, 0, &[])]);
    assert!(!app.statsFit());
}

#[test]
fn auto_refresh_after_two_seconds() {
    let app = new_app();
    assert!(!app.shouldAutoRefresh(1999));
    assert!(app.shouldAutoRefresh(2000));
}

#[test]
fn keys_map_to_commands() {
    assert_eq!(keyCommand(true, ViewMode::List, Key::Char('q')), Command::SearchInput('q'));
    assert_eq!(keyCommand(true, ViewMode::Detail, Key::Esc), Command::ToggleSearch);
    assert_eq!(keyCommand(true, ViewMode::List, Key::Backspace), Command::SearchBackspace);
    assert_eq!(keyCommand(false, ViewMode::List, Key::Char('q')), Command::Quit);
    assert_eq!(keyCommand(false, ViewMode::List, Key::Char('d')), Command::ConfirmKill);
    assert_eq!(keyCommand(false, ViewMode::List, Key::Down), Command::Next);
    assert_eq!(keyCommand(false, ViewMode::List, Key::Char('k')), Command::Previous);
    assert_eq!(keyCommand(false, ViewMode::List, Key::Enter), Command::ShowDetail);
    assert_eq!(keyCommand(false, ViewMode::Projects, Key::Char('d')), Command::DeployProject);
    assert_eq!(keyCommand(false, ViewMode::Projects, Key::Char(' ')), Command::ToggleProject);
    assert_eq!(keyCommand(false, ViewMode::Detail, Key::Char('q')), Command::Nothing);
    assert_eq!(keyCommand(false, ViewMode::ConfirmKill, Key::Char('Y')), Command::KillSelected);
    assert_eq!(keyCommand(false, ViewMode::ConfirmKill, Key::Esc), Command::BackToList);
    assert_eq!(keyCommand(false, ViewMode::ConfirmKill, Key::Char('x')), Command::Nothing);
}

#[test]
fn sort_argument_names() {
    assert_eq!(sortModeFromArg("cpu"), SortMode::Cpu);
    assert_eq!(sortModeFromArg("CPU"), SortMode::Cpu);
    assert_eq!(sortModeFromArg("mem"), SortMode::Memory);
    assert_eq!(sortModeFromArg("Memory"), SortMode::Memory);
    assert_eq!(sortModeFromArg("conn"), SortMode::Connections);
    assert_eq!(sortModeFromArg("connections"), SortMode::Connections);
    assert_eq!(sortModeFromArg("NAME"), SortMode::Name);
    assert_eq!(sortModeFromArg("port"), SortMode::Port);
    assert_eq!(sortModeFromArg("whatever"), SortMode::Port);
}

fn project(id: &str, name: &str, deploy: Option<&str>, build: Option<&str>) -> Project {
    Project {
        id: id.to_string(),
        name: name.to_string(),
        path: "/srv/app".to_string(),
        port: 3000,
        build_command: build.map(|s| s.to_string()),
        run_command: "npm start".to_string(),
        deploy_command: deploy.map(|s| s.to_string()),
        env_vars: HashMap::from([("A".to_string(), "1".to_string())]),
    }
}

#[test]
fn new_project_has_a_random_v4_id() {
    let p = Project::new("web".to_string(), "/srv".to_string(), 8080, "run".to_string());
    let q = Project::new("web".to_string(), "/srv".to_string(), 8080, "run".to_string());
    assert_ne!(p.id, q.id);
    let id: Vec<char> = p.id.chars().collect();
    assert_eq!(id.len(), 36);
    assert_eq!(id[8], '-');
    assert_eq!(id[14], '4');
    assert!("89ab".contains(id[19]));
    assert!(p.build_command.is_none() && p.deploy_command.is_none() && p.env_vars.is_empty());
    assert_eq!((p.name.as_str(), p.path.as_str(), p.port, p.run_command.as_str()), ("web", "/srv", 8080, "run"));
}

#[test]
fn manager_adds_removes_and_tracks_running() {
    let mut m: ProjectManager<u32> = ProjectManager::new(vec![project("a", "A", None, None)]);
    m.addProject(project("b", "B", Some("deploy.sh"), Some("make")));
    m.addProject(project("a", "A2", None, None));
    assert_eq!(m.getProjects().len(), 3);
    assert!(!m.isRunning("b"));
    assert_eq!(m.markStarted("b".to_string(), 7), None);
    assert!(m.isRunning("b"));
    assert_eq!(m.markStarted("b".to_string(), 8), Some(7));
    assert_eq!(m.stopProject("b"), Ok(8));
    assert!(!m.isRunning("b"));
    assert_eq!(m.stopProject("b"), Err("Project not running".to_string()));
    m.removeProject("a");
    let names: Vec<&str> = m.getProjects().iter().map(|p| p.name.as_str()).collect();
    assert_eq!(names, vec!["B"]);
}

#[test]
fn plans_for_start_and_deploy() {
    let m: ProjectManager<()> = ProjectManager::new(vec![project("a", "A", None, None), project("b", "B", Some("deploy.sh"), Some("make"))]);
    let start = m.startPlan("b").unwrap();
    assert_eq!(start.build.as_deref(), Some("make"));
    assert_eq!(start.command, "npm start");
    assert_eq!(start.dir, "/srv/app");
    assert_eq!(start.env_vars, HashMap::from([("A".to_string(), "1".to_string())]));
    let deploy = m.deployPlan("b").unwrap();
    assert_eq!(deploy.command, "deploy.sh");
    assert_eq!(m.startPlan("zz").err().unwrap(), "Project not found");
    assert_eq!(m.deployPlan("zz").err().unwrap(), "Project not found");
    assert_eq!(m.deployPlan("a").err().unwrap(), "No deploy command configured");
    assert_eq!(buildResult(true), Ok(()));
    assert_eq!(buildResult(false), Err("Build command failed".to_string()));
    assert_eq!(deployResult(false), Err("Deploy command failed".to_string()));
}

#[test]
fn project_navigation_and_messages() {
    let m: ProjectManager<()> = ProjectManager::new(vec![project("a", "A", None, None), project("b", "B", None, None)]);
    let mut app = App::new(m, Some("9.9.9".to_string()));
    app.projectsPrevious();
    assert_eq!(app.projects_selected, 1);
    app.projectsNext();
    assert_eq!(app.projects_selected, 0);
    assert_eq!(app.selectedProject(), Some(("a".to_string(), "A".to_string(), false)));
    app.toggleProject("A", false, Ok(()));
    assert_eq!(app.status_message.as_deref(), Some("\u{2713} Started A"));
    app.toggleProject("A", true, Ok(()));
    assert_eq!(app.status_message.as_deref(), Some("\u{2713} Stopped A"));
    app.toggleProject("A", true, Err("Project not running".to_string()));
    assert_eq!(app.status_message.as_deref(), Some("\u{2717} Project not running"));
    app.deployProject("A", Ok(()));
    assert_eq!(app.status_message.as_deref(), Some("\u{2713} Deployed A"));
    app.deployProject("A", Err("No deploy command configured".to_string()));
    assert_eq!(app.status_message.as_deref(), Some("\u{2717} Deploy failed: No deploy command configured"));
}

#[test]
fn query_matching_checks_name_port_and_command() {
    use_matches();
}

fn use_matches() {
    assert!(wsup::app::matchesQuery("nginx", 80, "nginx", "gin"));
    assert!(wsup::app::matchesQuery("nginx", 8080, "nginx", "808"));
    assert!(wsup::app::matchesQuery("node", 3000, "node server.js", "server"));
    assert!(!wsup::app::matchesQuery("node", 3000, "node server.js", "NODE"));
    assert!(wsup::app::matchesQuery("node", 3000, "node server.js", ""));
    assert!(!wsup::app::matchesQuery("node", 3000, "node", "4000"));
}

#[test]
fn find_process_by_port_takes_the_first_match() {
    let mut list = sample();
    list.push(proc(40, "second", 3000, 0, 0, 0, &[]));
    let found = findProcessByPort(&list, 3000).unwrap();
    assert_eq!(found.pid, 10);
    assert_eq!(findProcessByPort(&list, 80).unwrap().name, "nginx");
    assert!(findProcessByPort(&list, 1234).is_none());
    assert!(findProcessByPort(&vec![], 80).is_none());
}

#[test]
fn commands_move_scroll_and_clear_the_status() {
    let mut app = new_app();
    app.refreshProcesses(sample());
    app.status_message = Some("old".to_string());
    assert!(matches!(app.handleCommand(Command::Next, 1), Effect::Nothing));
    assert_eq!(app.selected, 1);
    assert_eq!(app.scroll_offset, 1);
    assert!(app.status_message.is_none());
    app.handleCommand(Command::Next, 1);
    app.handleCommand(Command::Next, 1);
    assert_eq!(app.selected, 0);
    assert_eq!(app.scroll_offset, 0);
    app.handleCommand(Command::Previous, 2);
    assert_eq!(app.selected, 2);
    assert_eq!(app.scroll_offset, 1);
    app.status_message = Some("old".to_string());
    assert!(matches!(app.handleCommand(Command::Refresh, 2), Effect::Refresh));
    assert!(app.status_message.is_none());
    assert!(matches!(app.handleCommand(Command::CycleSort, 2), Effect::CycleSort));
    assert_eq!(app.sort_mode, SortMode::Port);
    assert!(matches!(app.handleCommand(Command::ToggleSortOrder, 2), Effect::ToggleSortOrder));
    assert!(!app.sort_reversed);
    app.handleCommand(Command::Quit, 2);
    assert!(app.should_quit);
}

#[test]
fn commands_edit_the_search_and_switch_views() {
    let mut app = new_app();
    app.refreshProcesses(sample());
    app.handleCommand(Command::ToggleSearch, 5);
    assert!(app.search_mode);
    app.handleCommand(Command::SearchInput('z'), 5);
    assert_eq!(app.search_query, "z");
    assert!(app.filtered_processes.is_empty());
    app.handleCommand(Command::SearchBackspace, 5);
    assert_eq!(app.filtered_processes.len(), 3);
    app.handleCommand(Command::SearchInput('q'), 5);
    app.handleCommand(Command::ToggleSearch, 5);
    assert!(!app.search_mode);
    assert_eq!(app.search_query, "");
    assert_eq!(app.filtered_processes.len(), 3);
    app.handleCommand(Command::ShowDetail, 5);
    assert_eq!(app.view_mode, ViewMode::Detail);
    app.handleCommand(Command::ConfirmKill, 5);
    assert_eq!(app.view_mode, ViewMode::ConfirmKill);
    app.status_message = Some("old".to_string());
    app.handleCommand(Command::BackToList, 5);
    assert_eq!(app.view_mode, ViewMode::List);
    assert!(app.status_message.is_none());
    assert!(matches!(app.handleCommand(Command::Nothing, 5), Effect::Nothing));
}

#[test]
fn kill_command_names_the_selected_process() {
    let mut app = new_app();
    assert!(matches!(app.handleCommand(Command::KillSelected, 5), Effect::Nothing));
    app.refreshProcesses(sample());
    app.selected = 2;
    match app.handleCommand(Command::KillSelected, 5) {
        Effect::Kill(pid) => assert_eq!(pid, 30),
        _ => panic!("expected a kill"),
    }
    assert_eq!(app.processes.len(), 3);
}

#[test]
fn project_commands_name_the_selected_project() {
    let m: ProjectManager<()> = ProjectManager::new(vec![project("a", "A", None, None), project("b", "B", None, None)]);
    let mut app = App::new(m, None);
    app.handleCommand(Command::ProjectsNext, 5);
    assert_eq!(app.projects_selected, 1);
    match app.handleCommand(Command::ToggleProject, 5) {
        Effect::ToggleProject { id, name, was_running } => {
            assert_eq!((id.as_str(), name.as_str(), was_running), ("b", "B", false));
        }
        _ => panic!("expected a toggle"),
    }
    app.project_manager.markStarted("b".to_string(), ());
    match app.handleCommand(Command::ToggleProject, 5) {
        Effect::ToggleProject { was_running, .. } => assert!(was_running),
        _ => panic!("expected a toggle"),
    }
    match app.handleCommand(Command::DeployProject, 5) {
        Effect::DeployProject { id, name } => assert_eq!((id.as_str(), name.as_str()), ("b", "B")),
        _ => panic!("expected a deploy"),
    }
    app.handleCommand(Command::ProjectsPrevious, 5);
    assert_eq!(app.projects_selected, 0);
    let mut empty = new_app();
    assert!(matches!(empty.handleCommand(Command::ToggleProject, 5), Effect::Nothing));
    assert!(matches!(empty.handleCommand(Command::DeployProject, 5), Effect::Nothing));
}

#[test]
fn command_fits_refuses_overflowing_moves() {
    let mut app = new_app();
    app.refreshProcesses(sample());
    assert!(app.commandFits(Command::Next, 5));
    app.selected = usize::MAX;
    assert!(!app.commandFits(Command::Next, 5));
    assert!(app.commandFits(Command::Quit, 5));
    app.selected = 0;
    app.scroll_offset = 1;
    assert!(!app.commandFits(Command::Previous, usize::MAX));
    assert!(app.commandFits(Command::Previous, 3));
    let empty = new_app();
    assert!(empty.commandFits(Command::ProjectsNext, 0));
}

#[test]
fn no_kill_request_without_processes() {
    let mut app = new_app();
    app.showConfirmKill();
    assert!(app.killTarget().is_none());
    assert!(matches!(app.handleCommand(Command::KillSelected, 5), Effect::Nothing));
    app.killSelected(Err("x".to_string()));
    assert!(app.status_message.is_none());
    assert_eq!(app.view_mode, ViewMode::ConfirmKill);
}

#[test]
fn listing_stays_a_filter_of_the_processes() {
    let mut app = new_app();
    app.refreshProcesses(sample());
    app.handleCommand(Command::ToggleSearch, 5);
    app.handleCommand(Command::SearchInput('g'), 5);
    assert_eq!(pids(&app.filtered_processes), vec![20, 30]);
    app.refreshProcesses(sample().into_iter().filter(|p| p.pid != 30).collect());
    assert_eq!(pids(&app.filtered_processes), vec![20]);
    app.refreshProcesses(vec![]);
    assert!(app.filtered_processes.is_empty());
    assert!(app.killTarget().is_none());
}
